//! The kernels of the backend: their shaders, entry points and bind group
//! layouts.

use vstd::prelude::*;

verus! {

/// How a kernel uses a bound buffer.
#[derive(Debug, Clone, Copy, PartialEq, Eq, Structural)]
pub enum Access {
    /// A storage buffer that is only read.
    ReadOnly,
    /// A storage buffer that is read and written.
    ReadWrite,
    /// A uniform block.
    Uniform,
}

/// One binding of a bind group layout.
#[derive(Debug, Clone, Copy, PartialEq, Eq, Structural)]
pub struct LayoutEntry {
    pub binding: u32,
    pub access: Access,
}

/// The bind group layouts. Where a layout has further blob slots, blob slot `i`
/// of 1 to 7 is binding `9 + i`.
#[derive(Debug, Clone, Copy, PartialEq, Eq, Structural)]
pub enum Layout {
    /// Blob, output.
    Probe,
    /// Blob, output, uniforms.
    Dequant,
    /// Blob, output, uniforms, further blob slots.
    DequantAny,
    /// Blob, input, output, uniforms.
    MatMul,
    /// Weights, input, output, uniforms.
    MatMulF32,
    /// Blob, input, output, uniforms, further blob slots.
    RmsNorm,
    /// Blob, activation, temp, offsets, params, norm bank, RoPE table, K, V, cache
    /// params, further blob slots, layer scales.
    Layer,
    /// Blob, input, logits, uniforms, further blob slots.
    LmHeadBlob,
    /// The first ten of a layer, then packed K, K scales, packed V, V scales.
    LayerInt4,
    /// K, V, packed K, packed V, K scales, V scales, uniforms.
    QuantizeKv,
    /// Blob, token ids, embeddings, uniforms, latent output, further blob slots.
    PleInput,
    /// Blob, activation, temp, offsets, params, cache params, layer scales, latent input,
    /// further blob slots.
    PleBlock,
    /// K and V snapshots, K and V, uniforms.
    RopeShift,
    /// Uniforms, four snapshots, four destinations.
    RopeShiftInt4,
    /// Blob, activations, QKV scratch, FFN scratch, offsets, params.
    Vit,
    /// Blob, features, queries, KV scratch, offsets, params.
    Resampler,
}

/// A read-only storage binding.
pub open spec fn read_only(binding: u32) -> LayoutEntry {
    LayoutEntry { binding, access: Access::ReadOnly }
}

/// A read-write storage binding.
pub open spec fn read_write(binding: u32) -> LayoutEntry {
    LayoutEntry { binding, access: Access::ReadWrite }
}

/// A uniform binding.
pub open spec fn uniform(binding: u32) -> LayoutEntry {
    LayoutEntry { binding, access: Access::Uniform }
}

/// The bindings of the blob slots 1 to 7.
pub open spec fn further_slots() -> Seq<LayoutEntry> {
    Seq::new(7, |i: int| read_only((10 + i) as u32))
}

/// The bindings of a layout.
pub open spec fn layout_table(layout: Layout) -> Seq<LayoutEntry> {
    match layout {
        Layout::Probe => seq![read_only(0), read_write(1)],
        Layout::Dequant => seq![read_only(0), read_write(1), uniform(2)],
        Layout::DequantAny => seq![read_only(0), read_write(1), uniform(2)] + further_slots(),
        Layout::MatMul => seq![read_only(0), read_only(1), read_write(2), uniform(3)],
        Layout::MatMulF32 => seq![read_only(0), read_only(1), read_write(2), uniform(3)],
        Layout::RmsNorm => seq![
            read_only(0),
            read_only(1),
            read_write(2),
            uniform(3),
        ] + further_slots(),
        Layout::Layer => seq![
            read_only(0),
            read_write(1),
            read_write(2),
            uniform(3),
            uniform(4),
            read_only(5),
            read_only(6),
            read_write(7),
            read_write(8),
            uniform(9),
        ] + further_slots() + seq![read_only(17)],
        Layout::LmHeadBlob => seq![
            read_only(0),
            read_only(1),
            read_write(2),
            uniform(3),
        ] + further_slots(),
        Layout::LayerInt4 => seq![
            read_only(0),
            read_write(1),
            read_write(2),
            uniform(3),
            uniform(4),
            read_only(5),
            read_only(6),
            read_write(7),
            read_write(8),
            uniform(9),
            read_only(10),
            read_only(11),
            read_only(12),
            read_only(13),
        ],
        Layout::QuantizeKv => seq![
            read_only(0),
            read_only(1),
            read_write(2),
            read_write(3),
            read_write(4),
            read_write(5),
            uniform(6),
        ],
        Layout::PleInput => seq![
            read_only(0),
            read_only(1),
            read_only(2),
            uniform(3),
            read_write(4),
        ] + further_slots(),
        Layout::PleBlock => seq![
            read_only(0),
            read_write(1),
            read_write(2),
            uniform(3),
            uniform(4),
            uniform(9),
            read_only(17),
            read_only(18),
        ] + further_slots(),
        Layout::RopeShift => seq![
            read_only(0),
            read_only(1),
            read_write(2),
            read_write(3),
            uniform(4),
        ],
        Layout::RopeShiftInt4 => seq![
            uniform(0),
            read_only(1),
            read_only(2),
            read_only(3),
            read_only(4),
            read_write(5),
            read_write(6),
            read_write(7),
            read_write(8),
        ],
        Layout::Vit => seq![
            read_only(0),
            read_write(1),
            read_write(2),
            read_write(3),
            uniform(4),
            uniform(5),
        ],
        Layout::Resampler => seq![
            read_only(0),
            read_only(1),
            read_write(2),
            read_write(3),
            uniform(4),
            uniform(5),
        ],
    }
}

fn push_entry(entries: &mut Vec<LayoutEntry>, binding: u32, access: Access)
    ensures
        final(entries)@ == old(entries)@.push(LayoutEntry { binding, access }),
{
    entries.push(LayoutEntry { binding, access });
}

fn push_further_slots(entries: &mut Vec<LayoutEntry>)
    ensures
        final(entries)@ == old(entries)@ + further_slots(),
{
    let mut i: u32 = 0;
    while i < 7
        invariant
            i <= 7,
            entries@ == old(entries)@ + further_slots().take(i as int),
        decreases 7 - i,
    {
        entries.push(LayoutEntry { binding: 10 + i, access: Access::ReadOnly });
        i += 1;
        assert(entries@ =~= old(entries)@ + further_slots().take(i as int));
    }
    assert(further_slots().take(7) =~= further_slots());
}

/// The bindings of a layout, in the order in which a bind group lists them.
pub fn layout_entries(layout: Layout) -> (entries: Vec<LayoutEntry>)
    ensures
        entries@ == layout_table(layout),
{
    let mut e: Vec<LayoutEntry> = Vec::new();
    match layout {
        Layout::Probe => {
            push_entry(&mut e, 0, Access::ReadOnly);
            push_entry(&mut e, 1, Access::ReadWrite);
        },
        Layout::Dequant => {
            push_entry(&mut e, 0, Access::ReadOnly);
            push_entry(&mut e, 1, Access::ReadWrite);
            push_entry(&mut e, 2, Access::Uniform);
        },
        Layout::DequantAny => {
            push_entry(&mut e, 0, Access::ReadOnly);
            push_entry(&mut e, 1, Access::ReadWrite);
            push_entry(&mut e, 2, Access::Uniform);
            push_further_slots(&mut e);
        },
        Layout::MatMul => {
            push_entry(&mut e, 0, Access::ReadOnly);
            push_entry(&mut e, 1, Access::ReadOnly);
            push_entry(&mut e, 2, Access::ReadWrite);
            push_entry(&mut e, 3, Access::Uniform);
        },
        Layout::MatMulF32 => {
            push_entry(&mut e, 0, Access::ReadOnly);
            push_entry(&mut e, 1, Access::ReadOnly);
            push_entry(&mut e, 2, Access::ReadWrite);
            push_entry(&mut e, 3, Access::Uniform);
        },
        Layout::RmsNorm => {
            push_entry(&mut e, 0, Access::ReadOnly);
            push_entry(&mut e, 1, Access::ReadOnly);
            push_entry(&mut e, 2, Access::ReadWrite);
            push_entry(&mut e, 3, Access::Uniform);
            push_further_slots(&mut e);
        },
        Layout::Layer => {
            push_entry(&mut e, 0, Access::ReadOnly);
            push_entry(&mut e, 1, Access::ReadWrite);
            push_entry(&mut e, 2, Access::ReadWrite);
            push_entry(&mut e, 3, Access::Uniform);
            push_entry(&mut e, 4, Access::Uniform);
            push_entry(&mut e, 5, Access::ReadOnly);
            push_entry(&mut e, 6, Access::ReadOnly);
            push_entry(&mut e, 7, Access::ReadWrite);
            push_entry(&mut e, 8, Access::ReadWrite);
            push_entry(&mut e, 9, Access::Uniform);
            push_further_slots(&mut e);
            push_entry(&mut e, 17, Access::ReadOnly);
        },
        Layout::LmHeadBlob => {
            push_entry(&mut e, 0, Access::ReadOnly);
            push_entry(&mut e, 1, Access::ReadOnly);
            push_entry(&mut e, 2, Access::ReadWrite);
            push_entry(&mut e, 3, Access::Uniform);
            push_further_slots(&mut e);
        },
        Layout::LayerInt4 => {
            push_entry(&mut e, 0, Access::ReadOnly);
            push_entry(&mut e, 1, Access::ReadWrite);
            push_entry(&mut e, 2, Access::ReadWrite);
            push_entry(&mut e, 3, Access::Uniform);
            push_entry(&mut e, 4, Access::Uniform);
            push_entry(&mut e, 5, Access::ReadOnly);
            push_entry(&mut e, 6, Access::ReadOnly);
            push_entry(&mut e, 7, Access::ReadWrite);
            push_entry(&mut e, 8, Access::ReadWrite);
            push_entry(&mut e, 9, Access::Uniform);
            push_entry(&mut e, 10, Access::ReadOnly);
            push_entry(&mut e, 11, Access::ReadOnly);
            push_entry(&mut e, 12, Access::ReadOnly);
            push_entry(&mut e, 13, Access::ReadOnly);
        },
        Layout::QuantizeKv => {
            push_entry(&mut e, 0, Access::ReadOnly);
            push_entry(&mut e, 1, Access::ReadOnly);
            push_entry(&mut e, 2, Access::ReadWrite);
            push_entry(&mut e, 3, Access::ReadWrite);
            push_entry(&mut e, 4, Access::ReadWrite);
            push_entry(&mut e, 5, Access::ReadWrite);
            push_entry(&mut e, 6, Access::Uniform);
        },
        Layout::PleInput => {
            push_entry(&mut e, 0, Access::ReadOnly);
            push_entry(&mut e, 1, Access::ReadOnly);
            push_entry(&mut e, 2, Access::ReadOnly);
            push_entry(&mut e, 3, Access::Uniform);
            push_entry(&mut e, 4, Access::ReadWrite);
            push_further_slots(&mut e);
        },
        Layout::PleBlock => {
            push_entry(&mut e, 0, Access::ReadOnly);
            push_entry(&mut e, 1, Access::ReadWrite);
            push_entry(&mut e, 2, Access::ReadWrite);
            push_entry(&mut e, 3, Access::Uniform);
            push_entry(&mut e, 4, Access::Uniform);
            push_entry(&mut e, 9, Access::Uniform);
            push_entry(&mut e, 17, Access::ReadOnly);
            push_entry(&mut e, 18, Access::ReadOnly);
            push_further_slots(&mut e);
        },
        Layout::RopeShift => {
            push_entry(&mut e, 0, Access::ReadOnly);
            push_entry(&mut e, 1, Access::ReadOnly);
            push_entry(&mut e, 2, Access::ReadWrite);
            push_entry(&mut e, 3, Access::ReadWrite);
            push_entry(&mut e, 4, Access::Uniform);
        },
        Layout::RopeShiftInt4 => {
            push_entry(&mut e, 0, Access::Uniform);
            push_entry(&mut e, 1, Access::ReadOnly);
            push_entry(&mut e, 2, Access::ReadOnly);
            push_entry(&mut e, 3, Access::ReadOnly);
            push_entry(&mut e, 4, Access::ReadOnly);
            push_entry(&mut e, 5, Access::ReadWrite);
            push_entry(&mut e, 6, Access::ReadWrite);
            push_entry(&mut e, 7, Access::ReadWrite);
            push_entry(&mut e, 8, Access::ReadWrite);
        },
        Layout::Vit => {
            push_entry(&mut e, 0, Access::ReadOnly);
            push_entry(&mut e, 1, Access::ReadWrite);
            push_entry(&mut e, 2, Access::ReadWrite);
            push_entry(&mut e, 3, Access::ReadWrite);
            push_entry(&mut e, 4, Access::Uniform);
            push_entry(&mut e, 5, Access::Uniform);
        },
        Layout::Resampler => {
            push_entry(&mut e, 0, Access::ReadOnly);
            push_entry(&mut e, 1, Access::ReadOnly);
            push_entry(&mut e, 2, Access::ReadWrite);
            push_entry(&mut e, 3, Access::ReadWrite);
            push_entry(&mut e, 4, Access::Uniform);
            push_entry(&mut e, 5, Access::Uniform);
        },
    }
    assert(e@ =~= layout_table(layout));
    e
}

/// The compiled kernels.
#[derive(Debug, Clone, Copy, PartialEq, Eq, Structural)]
pub enum Kernel {
    Probe,
    Dequant,
    DequantAny,
    MatMul,
    MatMulF32,
    RmsNorm,
    AttnNorm,
    Qkv,
    QkNorm,
    AttnOut,
    AttnProj,
    FfnNorm,
    FfnProj,
    FfnDown,
    PostAttnNorm,
    PostFfwNorm,
    Q4kQkv,
    Q4kAttnOut,
    Q4kAttnProj,
    Q4kFfnProj,
    Q4kFfnDown,
    LmHeadBlob,
    AttnOutInt4,
    QuantizeKv,
    PleInput,
    PleBlock,
    RopeShift,
    RopeShiftInt4,
    VitLn1,
    VitQkv,
    VitAttn,
    VitAttnProj,
    VitLn2,
    VitFfnUp,
    VitFfnDown,
    VitPostLn,
    RspInitQ,
    RspKvLin,
    RspLnKv,
    RspProjK,
    RspProjV,
    RspLnQ,
    RspProjQ,
    RspCopyQ,
    RspAttn,
    RspOutProj,
    RspPostLn,
    RspFinalProj,
}

/// Where a kernel comes from: its shader file, its entry point, and the layout
/// of its bind group.
#[derive(Debug, Clone, Copy)]
pub struct KernelSource {
    pub shader: &'static str,
    pub entry: &'static str,
    pub layout: Layout,
}

/// The layout of a kernel's bind group.
pub open spec fn kernel_layout(kernel: Kernel) -> Layout {
    match kernel {
        Kernel::Probe => Layout::Probe,
        Kernel::Dequant => Layout::Dequant,
        Kernel::DequantAny => Layout::DequantAny,
        Kernel::MatMul => Layout::MatMul,
        Kernel::MatMulF32 => Layout::MatMulF32,
        Kernel::RmsNorm => Layout::RmsNorm,
        Kernel::AttnNorm => Layout::Layer,
        Kernel::Qkv => Layout::Layer,
        Kernel::QkNorm => Layout::Layer,
        Kernel::AttnOut => Layout::Layer,
        Kernel::AttnProj => Layout::Layer,
        Kernel::FfnNorm => Layout::Layer,
        Kernel::FfnProj => Layout::Layer,
        Kernel::FfnDown => Layout::Layer,
        Kernel::PostAttnNorm => Layout::Layer,
        Kernel::PostFfwNorm => Layout::Layer,
        Kernel::Q4kQkv => Layout::Layer,
        Kernel::Q4kAttnOut => Layout::Layer,
        Kernel::Q4kAttnProj => Layout::Layer,
        Kernel::Q4kFfnProj => Layout::Layer,
        Kernel::Q4kFfnDown => Layout::Layer,
        Kernel::LmHeadBlob => Layout::LmHeadBlob,
        Kernel::AttnOutInt4 => Layout::LayerInt4,
        Kernel::QuantizeKv => Layout::QuantizeKv,
        Kernel::PleInput => Layout::PleInput,
        Kernel::PleBlock => Layout::PleBlock,
        Kernel::RopeShift => Layout::RopeShift,
        Kernel::RopeShiftInt4 => Layout::RopeShiftInt4,
        Kernel::VitLn1 => Layout::Vit,
        Kernel::VitQkv => Layout::Vit,
        Kernel::VitAttn => Layout::Vit,
        Kernel::VitAttnProj => Layout::Vit,
        Kernel::VitLn2 => Layout::Vit,
        Kernel::VitFfnUp => Layout::Vit,
        Kernel::VitFfnDown => Layout::Vit,
        Kernel::VitPostLn => Layout::Vit,
        Kernel::RspInitQ => Layout::Resampler,
        Kernel::RspKvLin => Layout::Resampler,
        Kernel::RspLnKv => Layout::Resampler,
        Kernel::RspProjK => Layout::Resampler,
        Kernel::RspProjV => Layout::Resampler,
        Kernel::RspLnQ => Layout::Resampler,
        Kernel::RspProjQ => Layout::Resampler,
        Kernel::RspCopyQ => Layout::Resampler,
        Kernel::RspAttn => Layout::Resampler,
        Kernel::RspOutProj => Layout::Resampler,
        Kernel::RspPostLn => Layout::Resampler,
        Kernel::RspFinalProj => Layout::Resampler,
    }
}

/// The shader file of a kernel.
pub open spec fn kernel_shader(kernel: Kernel) -> Seq<char> {
    match kernel {
        Kernel::Probe => "probe.wgsl"@,
        Kernel::Dequant => "sh_dequant_q4_0.wgsl"@,
        Kernel::DequantAny => "sh_dequant_any.wgsl"@,
        Kernel::MatMul => "sh_matmul_q4_0.wgsl"@,
        Kernel::MatMulF32 => "sh_matmul_f32.wgsl"@,
        Kernel::RmsNorm => "sh_rmsnorm.wgsl"@,
        Kernel::AttnNorm => "sh_layer_v1.wgsl"@,
        Kernel::Qkv => "sh_layer_v1.wgsl"@,
        Kernel::QkNorm => "sh_layer_v1.wgsl"@,
        Kernel::AttnOut => "sh_layer_v1.wgsl"@,
        Kernel::AttnProj => "sh_layer_v1.wgsl"@,
        Kernel::FfnNorm => "sh_layer_v1.wgsl"@,
        Kernel::FfnProj => "sh_layer_v1.wgsl"@,
        Kernel::FfnDown => "sh_layer_v1.wgsl"@,
        Kernel::PostAttnNorm => "sh_layer_v1.wgsl"@,
        Kernel::PostFfwNorm => "sh_layer_v1.wgsl"@,
        Kernel::Q4kQkv => "sh_layer_q4k.wgsl"@,
        Kernel::Q4kAttnOut => "sh_layer_q4k.wgsl"@,
        Kernel::Q4kAttnProj => "sh_layer_q4k.wgsl"@,
        Kernel::Q4kFfnProj => "sh_layer_q4k.wgsl"@,
        Kernel::Q4kFfnDown => "sh_layer_q4k.wgsl"@,
        Kernel::LmHeadBlob => "sh_head_blob.wgsl"@,
        Kernel::AttnOutInt4 => "sh_layer_v1_int4.wgsl"@,
        Kernel::QuantizeKv => "sh_quantize_kv.wgsl"@,
        Kernel::PleInput => "sh_ple_input.wgsl"@,
        Kernel::PleBlock => "sh_ple_block.wgsl"@,
        Kernel::RopeShift => "sh_rope_shift.wgsl"@,
        Kernel::RopeShiftInt4 => "sh_rope_shift_int4.wgsl"@,
        Kernel::VitLn1 => "sh_vit_layer.wgsl"@,
        Kernel::VitQkv => "sh_vit_layer.wgsl"@,
        Kernel::VitAttn => "sh_vit_layer.wgsl"@,
        Kernel::VitAttnProj => "sh_vit_layer.wgsl"@,
        Kernel::VitLn2 => "sh_vit_layer.wgsl"@,
        Kernel::VitFfnUp => "sh_vit_layer.wgsl"@,
        Kernel::VitFfnDown => "sh_vit_layer.wgsl"@,
        Kernel::VitPostLn => "sh_vit_layer.wgsl"@,
        Kernel::RspInitQ => "sh_resampler_gpu.wgsl"@,
        Kernel::RspKvLin => "sh_resampler_gpu.wgsl"@,
        Kernel::RspLnKv => "sh_resampler_gpu.wgsl"@,
        Kernel::RspProjK => "sh_resampler_gpu.wgsl"@,
        Kernel::RspProjV => "sh_resampler_gpu.wgsl"@,
        Kernel::RspLnQ => "sh_resampler_gpu.wgsl"@,
        Kernel::RspProjQ => "sh_resampler_gpu.wgsl"@,
        Kernel::RspCopyQ => "sh_resampler_gpu.wgsl"@,
        Kernel::RspAttn => "sh_resampler_gpu.wgsl"@,
        Kernel::RspOutProj => "sh_resampler_gpu.wgsl"@,
        Kernel::RspPostLn => "sh_resampler_gpu.wgsl"@,
        Kernel::RspFinalProj => "sh_resampler_gpu.wgsl"@,
    }
}

/// The entry point of a kernel in its shader.
pub open spec fn kernel_entry(kernel: Kernel) -> Seq<char> {
    match kernel {
        Kernel::Probe => "main"@,
        Kernel::Dequant => "main"@,
        Kernel::DequantAny => "main"@,
        Kernel::MatMul => "main"@,
        Kernel::MatMulF32 => "main"@,
        Kernel::RmsNorm => "main"@,
        Kernel::AttnNorm => "main_attn_norm"@,
        Kernel::Qkv => "main_qkv"@,
        Kernel::QkNorm => "main_qk_norm"@,
        Kernel::AttnOut => "main_attn_out"@,
        Kernel::AttnProj => "main_attn_proj"@,
        Kernel::FfnNorm => "main_ffn_norm"@,
        Kernel::FfnProj => "main_ffn_proj"@,
        Kernel::FfnDown => "main_ffn_down"@,
        Kernel::PostAttnNorm => "main_post_attn_norm"@,
        Kernel::PostFfwNorm => "main_post_ffw_norm"@,
        Kernel::Q4kQkv => "main_qkv"@,
        Kernel::Q4kAttnOut => "main_attn_out"@,
        Kernel::Q4kAttnProj => "main_attn_proj"@,
        Kernel::Q4kFfnProj => "main_ffn_proj"@,
        Kernel::Q4kFfnDown => "main_ffn_down"@,
        Kernel::LmHeadBlob => "main_lm_head"@,
        Kernel::AttnOutInt4 => "main_attn_out_int4"@,
        Kernel::QuantizeKv => "quantize_kv"@,
        Kernel::PleInput => "main"@,
        Kernel::PleBlock => "main"@,
        Kernel::RopeShift => "main"@,
        Kernel::RopeShiftInt4 => "main"@,
        Kernel::VitLn1 => "main_vit_ln1"@,
        Kernel::VitQkv => "main_vit_qkv"@,
        Kernel::VitAttn => "main_vit_attn"@,
        Kernel::VitAttnProj => "main_vit_attn_proj"@,
        Kernel::VitLn2 => "main_vit_ln2"@,
        Kernel::VitFfnUp => "main_vit_ffn_up"@,
        Kernel::VitFfnDown => "main_vit_ffn_down"@,
        Kernel::VitPostLn => "main_vit_post_ln"@,
        Kernel::RspInitQ => "main_rsp_init_q"@,
        Kernel::RspKvLin => "main_rsp_kv_lin"@,
        Kernel::RspLnKv => "main_rsp_ln_kv"@,
        Kernel::RspProjK => "main_rsp_proj_k"@,
        Kernel::RspProjV => "main_rsp_proj_v"@,
        Kernel::RspLnQ => "main_rsp_ln_q"@,
        Kernel::RspProjQ => "main_rsp_proj_q"@,
        Kernel::RspCopyQ => "main_rsp_copy_q"@,
        Kernel::RspAttn => "main_rsp_attn"@,
        Kernel::RspOutProj => "main_rsp_out_proj"@,
        Kernel::RspPostLn => "main_rsp_post_ln"@,
        Kernel::RspFinalProj => "main_rsp_final_proj"@,
    }
}

fn source(shader: &'static str, entry: &'static str, layout: Layout) -> (s: KernelSource)
    ensures
        s.shader@ == shader@,
        s.entry@ == entry@,
        s.layout == layout,
{
    KernelSource { shader, entry, layout }
}

/// Where a kernel comes from.
pub fn kernel_source(kernel: Kernel) -> (s: KernelSource)
    ensures
        s.shader@ == kernel_shader(kernel),
        s.entry@ == kernel_entry(kernel),
        s.layout == kernel_layout(kernel),
{
    match kernel {
        Kernel::Probe => source("probe.wgsl", "main", Layout::Probe),
        Kernel::Dequant => source("sh_dequant_q4_0.wgsl", "main", Layout::Dequant),
        Kernel::DequantAny => source("sh_dequant_any.wgsl", "main", Layout::DequantAny),
        Kernel::MatMul => source("sh_matmul_q4_0.wgsl", "main", Layout::MatMul),
        Kernel::MatMulF32 => source("sh_matmul_f32.wgsl", "main", Layout::MatMulF32),
        Kernel::RmsNorm => source("sh_rmsnorm.wgsl", "main", Layout::RmsNorm),
        Kernel::AttnNorm => source("sh_layer_v1.wgsl", "main_attn_norm", Layout::Layer),
        Kernel::Qkv => source("sh_layer_v1.wgsl", "main_qkv", Layout::Layer),
        Kernel::QkNorm => source("sh_layer_v1.wgsl", "main_qk_norm", Layout::Layer),
        Kernel::AttnOut => source("sh_layer_v1.wgsl", "main_attn_out", Layout::Layer),
        Kernel::AttnProj => source("sh_layer_v1.wgsl", "main_attn_proj", Layout::Layer),
        Kernel::FfnNorm => source("sh_layer_v1.wgsl", "main_ffn_norm", Layout::Layer),
        Kernel::FfnProj => source("sh_layer_v1.wgsl", "main_ffn_proj", Layout::Layer),
        Kernel::FfnDown => source("sh_layer_v1.wgsl", "main_ffn_down", Layout::Layer),
        Kernel::PostAttnNorm => source("sh_layer_v1.wgsl", "main_post_attn_norm", Layout::Layer),
        Kernel::PostFfwNorm => source("sh_layer_v1.wgsl", "main_post_ffw_norm", Layout::Layer),
        Kernel::Q4kQkv => source("sh_layer_q4k.wgsl", "main_qkv", Layout::Layer),
        Kernel::Q4kAttnOut => source("sh_layer_q4k.wgsl", "main_attn_out", Layout::Layer),
        Kernel::Q4kAttnProj => source("sh_layer_q4k.wgsl", "main_attn_proj", Layout::Layer),
        Kernel::Q4kFfnProj => source("sh_layer_q4k.wgsl", "main_ffn_proj", Layout::Layer),
        Kernel::Q4kFfnDown => source("sh_layer_q4k.wgsl", "main_ffn_down", Layout::Layer),
        Kernel::LmHeadBlob => source("sh_head_blob.wgsl", "main_lm_head", Layout::LmHeadBlob),
        Kernel::AttnOutInt4 => source(
            "sh_layer_v1_int4.wgsl",
            "main_attn_out_int4",
            Layout::LayerInt4,
        ),
        Kernel::QuantizeKv => source("sh_quantize_kv.wgsl", "quantize_kv", Layout::QuantizeKv),
        Kernel::PleInput => source("sh_ple_input.wgsl", "main", Layout::PleInput),
        Kernel::PleBlock => source("sh_ple_block.wgsl", "main", Layout::PleBlock),
        Kernel::RopeShift => source("sh_rope_shift.wgsl", "main", Layout::RopeShift),
        Kernel::RopeShiftInt4 => source("sh_rope_shift_int4.wgsl", "main", Layout::RopeShiftInt4),
        Kernel::VitLn1 => source("sh_vit_layer.wgsl", "main_vit_ln1", Layout::Vit),
        Kernel::VitQkv => source("sh_vit_layer.wgsl", "main_vit_qkv", Layout::Vit),
        Kernel::VitAttn => source("sh_vit_layer.wgsl", "main_vit_attn", Layout::Vit),
        Kernel::VitAttnProj => source("sh_vit_layer.wgsl", "main_vit_attn_proj", Layout::Vit),
        Kernel::VitLn2 => source("sh_vit_layer.wgsl", "main_vit_ln2", Layout::Vit),
        Kernel::VitFfnUp => source("sh_vit_layer.wgsl", "main_vit_ffn_up", Layout::Vit),
        Kernel::VitFfnDown => source("sh_vit_layer.wgsl", "main_vit_ffn_down", Layout::Vit),
        Kernel::VitPostLn => source("sh_vit_layer.wgsl", "main_vit_post_ln", Layout::Vit),
        Kernel::RspInitQ => source("sh_resampler_gpu.wgsl", "main_rsp_init_q", Layout::Resampler),
        Kernel::RspKvLin => source("sh_resampler_gpu.wgsl", "main_rsp_kv_lin", Layout::Resampler),
        Kernel::RspLnKv => source("sh_resampler_gpu.wgsl", "main_rsp_ln_kv", Layout::Resampler),
        Kernel::RspProjK => source("sh_resampler_gpu.wgsl", "main_rsp_proj_k", Layout::Resampler),
        Kernel::RspProjV => source("sh_resampler_gpu.wgsl", "main_rsp_proj_v", Layout::Resampler),
        Kernel::RspLnQ => source("sh_resampler_gpu.wgsl", "main_rsp_ln_q", Layout::Resampler),
        Kernel::RspProjQ => source("sh_resampler_gpu.wgsl", "main_rsp_proj_q", Layout::Resampler),
        Kernel::RspCopyQ => source("sh_resampler_gpu.wgsl", "main_rsp_copy_q", Layout::Resampler),
        Kernel::RspAttn => source("sh_resampler_gpu.wgsl", "main_rsp_attn", Layout::Resampler),
        Kernel::RspOutProj => source(
            "sh_resampler_gpu.wgsl",
            "main_rsp_out_proj",
            Layout::Resampler,
        ),
        Kernel::RspPostLn => source("sh_resampler_gpu.wgsl", "main_rsp_post_ln", Layout::Resampler),
        Kernel::RspFinalProj => source(
            "sh_resampler_gpu.wgsl",
            "main_rsp_final_proj",
            Layout::Resampler,
        ),
    }
}

/// The kernels of the language model.
pub open spec fn model_kernels() -> Seq<Kernel> {
    seq![
        Kernel::Probe,
        Kernel::Dequant,
        Kernel::DequantAny,
        Kernel::MatMul,
        Kernel::MatMulF32,
        Kernel::RmsNorm,
        Kernel::AttnNorm,
        Kernel::Qkv,
        Kernel::QkNorm,
        Kernel::AttnOut,
        Kernel::AttnProj,
        Kernel::FfnNorm,
        Kernel::FfnProj,
        Kernel::FfnDown,
        Kernel::PostAttnNorm,
        Kernel::PostFfwNorm,
        Kernel::Q4kQkv,
        Kernel::Q4kAttnOut,
        Kernel::Q4kAttnProj,
        Kernel::Q4kFfnProj,
        Kernel::Q4kFfnDown,
        Kernel::LmHeadBlob,
        Kernel::AttnOutInt4,
        Kernel::QuantizeKv,
        Kernel::PleInput,
        Kernel::PleBlock,
    ]
}

/// The pipelines of the language model, and the plans that run them.
#[derive(Debug)]
pub struct BindlessPipeline {
    /// The kernels to compile.
    pub kernels: Vec<Kernel>,
}

impl BindlessPipeline {
    /// Lists the kernels of the language model, from the probe on that verifies
    /// that the blob can be read.
    pub fn new() -> (p: Self)
        ensures
            p.kernels@ == model_kernels(),
    {
        let p = BindlessPipeline {
            kernels: vec![
                Kernel::Probe,
                Kernel::Dequant,
                Kernel::DequantAny,
                Kernel::MatMul,
                Kernel::MatMulF32,
                Kernel::RmsNorm,
                Kernel::AttnNorm,
                Kernel::Qkv,
                Kernel::QkNorm,
                Kernel::AttnOut,
                Kernel::AttnProj,
                Kernel::FfnNorm,
                Kernel::FfnProj,
                Kernel::FfnDown,
                Kernel::PostAttnNorm,
                Kernel::PostFfwNorm,
                Kernel::Q4kQkv,
                Kernel::Q4kAttnOut,
                Kernel::Q4kAttnProj,
                Kernel::Q4kFfnProj,
                Kernel::Q4kFfnDown,
                Kernel::LmHeadBlob,
                Kernel::AttnOutInt4,
                Kernel::QuantizeKv,
                Kernel::PleInput,
                Kernel::PleBlock,
            ],
        };
        assert(p.kernels@ =~= model_kernels());
        p
    }
}

/// The kernels of the context shift.
pub open spec fn shift_kernels() -> Seq<Kernel> {
    seq![Kernel::RopeShift, Kernel::RopeShiftInt4]
}

/// The pipelines of the context shift.
#[derive(Debug)]
pub struct RopeShiftPipeline {
    /// The kernels to compile.
    pub kernels: Vec<Kernel>,
}

impl RopeShiftPipeline {
    /// Lists the kernels of the context shift.
    pub fn new() -> (p: Self)
        ensures
            p.kernels@ == shift_kernels(),
    {
        let p = RopeShiftPipeline { kernels: vec![Kernel::RopeShift, Kernel::RopeShiftInt4] };
        assert(p.kernels@ =~= shift_kernels());
        p
    }
}

/// The kernels of the vision transformer.
pub open spec fn vit_kernels() -> Seq<Kernel> {
    seq![
        Kernel::VitLn1,
        Kernel::VitQkv,
        Kernel::VitAttn,
        Kernel::VitAttnProj,
        Kernel::VitLn2,
        Kernel::VitFfnUp,
        Kernel::VitFfnDown,
        Kernel::VitPostLn,
    ]
}

/// The pipelines of the vision transformer.
#[derive(Debug)]
pub struct VitPipeline {
    /// The kernels to compile.
    pub kernels: Vec<Kernel>,
}

impl VitPipeline {
    /// Lists the kernels of the vision transformer.
    pub fn new() -> (p: Self)
        ensures
            p.kernels@ == vit_kernels(),
    {
        let p = VitPipeline {
            kernels: vec![
                Kernel::VitLn1,
                Kernel::VitQkv,
                Kernel::VitAttn,
                Kernel::VitAttnProj,
                Kernel::VitLn2,
                Kernel::VitFfnUp,
                Kernel::VitFfnDown,
                Kernel::VitPostLn,
            ],
        };
        assert(p.kernels@ =~= vit_kernels());
        p
    }
}

/// The kernels of the resampler, in the order in which they run.
pub open spec fn resampler_kernel_list() -> Seq<Kernel> {
    seq![
        Kernel::RspInitQ,
        Kernel::RspKvLin,
        Kernel::RspLnKv,
        Kernel::RspProjK,
        Kernel::RspProjV,
        Kernel::RspLnQ,
        Kernel::RspProjQ,
        Kernel::RspCopyQ,
        Kernel::RspAttn,
        Kernel::RspOutProj,
        Kernel::RspPostLn,
        Kernel::RspFinalProj,
    ]
}

/// The pipelines of the resampler.
#[derive(Debug)]
pub struct ResamplerPipeline {
    /// The kernels to compile.
    pub kernels: Vec<Kernel>,
}

impl ResamplerPipeline {
    /// Lists the kernels of the resampler.
    pub fn new() -> (p: Self)
        ensures
            p.kernels@ == resampler_kernel_list(),
    {
        let p = ResamplerPipeline {
            kernels: vec![
                Kernel::RspInitQ,
                Kernel::RspKvLin,
                Kernel::RspLnKv,
                Kernel::RspProjK,
                Kernel::RspProjV,
                Kernel::RspLnQ,
                Kernel::RspProjQ,
                Kernel::RspCopyQ,
                Kernel::RspAttn,
                Kernel::RspOutProj,
                Kernel::RspPostLn,
                Kernel::RspFinalProj,
            ],
        };
        assert(p.kernels@ =~= resampler_kernel_list());
        p
    }
}

/// All kernels, those of each pipeline in turn.
pub open spec fn all_kernels() -> Seq<Kernel> {
    model_kernels() + shift_kernels() + vit_kernels() + resampler_kernel_list()
}

/// Every kernel belongs to a pipeline, and no kernel is compiled twice.
pub proof fn law_every_kernel_is_compiled_once(kernel: Kernel, i: int, j: int)
    requires
        0 <= i < j < all_kernels().len(),
    ensures
        all_kernels().contains(kernel),
        all_kernels()[i] != all_kernels()[j],
{
    let k = match kernel {
        Kernel::Probe => 0int,
        Kernel::Dequant => 1int,
        Kernel::DequantAny => 2int,
        Kernel::MatMul => 3int,
        Kernel::MatMulF32 => 4int,
        Kernel::RmsNorm => 5int,
        Kernel::AttnNorm => 6int,
        Kernel::Qkv => 7int,
        Kernel::QkNorm => 8int,
        Kernel::AttnOut => 9int,
        Kernel::AttnProj => 10int,
        Kernel::FfnNorm => 11int,
        Kernel::FfnProj => 12int,
        Kernel::FfnDown => 13int,
        Kernel::PostAttnNorm => 14int,
        Kernel::PostFfwNorm => 15int,
        Kernel::Q4kQkv => 16int,
        Kernel::Q4kAttnOut => 17int,
        Kernel::Q4kAttnProj => 18int,
        Kernel::Q4kFfnProj => 19int,
        Kernel::Q4kFfnDown => 20int,
        Kernel::LmHeadBlob => 21int,
        Kernel::AttnOutInt4 => 22int,
        Kernel::QuantizeKv => 23int,
        Kernel::PleInput => 24int,
        Kernel::PleBlock => 25int,
        Kernel::RopeShift => 26int,
        Kernel::RopeShiftInt4 => 27int,
        Kernel::VitLn1 => 28int,
        Kernel::VitQkv => 29int,
        Kernel::VitAttn => 30int,
        Kernel::VitAttnProj => 31int,
        Kernel::VitLn2 => 32int,
        Kernel::VitFfnUp => 33int,
        Kernel::VitFfnDown => 34int,
        Kernel::VitPostLn => 35int,
        Kernel::RspInitQ => 36int,
        Kernel::RspKvLin => 37int,
        Kernel::RspLnKv => 38int,
        Kernel::RspProjK => 39int,
        Kernel::RspProjV => 40int,
        Kernel::RspLnQ => 41int,
        Kernel::RspProjQ => 42int,
        Kernel::RspCopyQ => 43int,
        Kernel::RspAttn => 44int,
        Kernel::RspOutProj => 45int,
        Kernel::RspPostLn => 46int,
        Kernel::RspFinalProj => 47int,
    };
    assert(all_kernels()[k] == kernel);
}

/// Whether no two entries have one binding number.
pub open spec fn distinct_bindings(entries: Seq<LayoutEntry>) -> bool {
    forall|i: int, j: int|
        0 <= i < j < entries.len() ==> #[trigger] entries[i].binding
            != #[trigger] entries[j].binding
}

/// Bindings outside 10 to 16 do not clash with those of the further blob slots.
proof fn lemma_distinct_with_slots(entries: Seq<LayoutEntry>)
    requires
        distinct_bindings(entries),
        forall|i: int|
            0 <= i < entries.len() ==> #[trigger] entries[i].binding < 10 || entries[i].binding
                > 16,
    ensures
        distinct_bindings(entries + further_slots()),
{
    let all = entries + further_slots();
    let n = entries.len() as int;
    assert forall|i: int, j: int| 0 <= i < j < all.len() implies #[trigger] all[i].binding
        != #[trigger] all[j].binding by {
        if j < n {
            assert(entries[i].binding != entries[j].binding);
        } else if i < n {
            assert(entries[i].binding < 10 || entries[i].binding > 16);
            assert(all[j].binding == 10 + (j - n));
        } else {
            assert(all[i].binding == 10 + (i - n));
            assert(all[j].binding == 10 + (j - n));
        }
    }
}

/// The bindings of a layer: the first ten, the further blob slots, and one behind
/// them.
proof fn lemma_distinct_layer_bindings()
    ensures
        distinct_bindings(layout_table(Layout::Layer)),
{
    let table = layout_table(Layout::Layer);
    assert forall|i: int| 0 <= i < 18 implies #[trigger] table[i].binding == i by {
        if 10 <= i < 17 {
            assert(table[i] == further_slots()[i - 10]);
        }
    }
}

/// The bindings of a PLE block: two behind the further blob slots come before them.
proof fn lemma_distinct_ple_block_bindings()
    ensures
        distinct_bindings(layout_table(Layout::PleBlock)),
{
    let first = seq![
        read_only(0),
        read_write(1),
        read_write(2),
        uniform(3),
        uniform(4),
        uniform(9),
        read_only(17),
        read_only(18),
    ];
    lemma_distinct_with_slots(first);
    assert(layout_table(Layout::PleBlock) == first + further_slots());
}

/// No layout has two bindings of one number.
pub proof fn law_bindings_are_distinct(layout: Layout)
    ensures
        distinct_bindings(layout_table(layout)),
{
    match layout {
        Layout::Layer => lemma_distinct_layer_bindings(),
        Layout::PleBlock => lemma_distinct_ple_block_bindings(),
        Layout::DequantAny => lemma_distinct_with_slots(
            seq![read_only(0), read_write(1), uniform(2)],
        ),
        Layout::RmsNorm | Layout::LmHeadBlob => lemma_distinct_with_slots(
            seq![read_only(0), read_only(1), read_write(2), uniform(3)],
        ),
        Layout::PleInput => lemma_distinct_with_slots(
            seq![read_only(0), read_only(1), read_only(2), uniform(3), read_write(4)],
        ),
        _ => {
            // The other layouts number their bindings from 0 on.
            let table = layout_table(layout);
            assert(forall|i: int| 0 <= i < table.len() ==> #[trigger] table[i].binding == i);
        },
    }
}

/// Kernels that work together come from one shader: those of a layer, those of a layer
/// with Q4_K weights, those of the vision transformer, and those of the resampler. All
/// others have a shader of their own.
pub proof fn law_kernels_come_from_their_shaders(kernel: Kernel)
    ensures
        kernel_layout(kernel) == Layout::Vit ==> kernel_shader(kernel) == "sh_vit_layer.wgsl"@,
        kernel_layout(kernel) == Layout::Resampler ==> kernel_shader(kernel)
            == "sh_resampler_gpu.wgsl"@,
        kernel_layout(kernel) == Layout::Layer ==> kernel_shader(kernel) == (if kernel
            == Kernel::Q4kQkv || kernel == Kernel::Q4kAttnOut || kernel == Kernel::Q4kAttnProj
            || kernel == Kernel::Q4kFfnProj || kernel == Kernel::Q4kFfnDown {
            "sh_layer_q4k.wgsl"@
        } else {
            "sh_layer_v1.wgsl"@
        }),
        kernel_shader(Kernel::Probe) == "probe.wgsl"@,
        kernel_shader(Kernel::Dequant) == "sh_dequant_q4_0.wgsl"@,
        kernel_shader(Kernel::DequantAny) == "sh_dequant_any.wgsl"@,
        kernel_shader(Kernel::MatMul) == "sh_matmul_q4_0.wgsl"@,
        kernel_shader(Kernel::MatMulF32) == "sh_matmul_f32.wgsl"@,
        kernel_shader(Kernel::RmsNorm) == "sh_rmsnorm.wgsl"@,
        kernel_shader(Kernel::LmHeadBlob) == "sh_head_blob.wgsl"@,
        kernel_shader(Kernel::AttnOutInt4) == "sh_layer_v1_int4.wgsl"@,
        kernel_shader(Kernel::QuantizeKv) == "sh_quantize_kv.wgsl"@,
        kernel_shader(Kernel::PleInput) == "sh_ple_input.wgsl"@,
        kernel_shader(Kernel::PleBlock) == "sh_ple_block.wgsl"@,
        kernel_shader(Kernel::RopeShift) == "sh_rope_shift.wgsl"@,
        kernel_shader(Kernel::RopeShiftInt4) == "sh_rope_shift_int4.wgsl"@,
{
}

/// A kernel for Q4_K weights has the entry point of the kernel whose place it takes.
/// Shaders of one kernel begin at `main`, but for the head and quantization; in the
/// others each kernel has its own entry point, which its name spells.
pub proof fn law_kernels_have_their_entry_points()
    ensures
        kernel_entry(Kernel::Q4kQkv) == kernel_entry(Kernel::Qkv),
        kernel_entry(Kernel::Q4kAttnOut) == kernel_entry(Kernel::AttnOut),
        kernel_entry(Kernel::Q4kAttnProj) == kernel_entry(Kernel::AttnProj),
        kernel_entry(Kernel::Q4kFfnProj) == kernel_entry(Kernel::FfnProj),
        kernel_entry(Kernel::Q4kFfnDown) == kernel_entry(Kernel::FfnDown),
        kernel_entry(Kernel::Probe) == "main"@,
        kernel_entry(Kernel::Dequant) == "main"@,
        kernel_entry(Kernel::DequantAny) == "main"@,
        kernel_entry(Kernel::MatMul) == "main"@,
        kernel_entry(Kernel::MatMulF32) == "main"@,
        kernel_entry(Kernel::RmsNorm) == "main"@,
        kernel_entry(Kernel::AttnNorm) == "main_attn_norm"@,
        kernel_entry(Kernel::Qkv) == "main_qkv"@,
        kernel_entry(Kernel::QkNorm) == "main_qk_norm"@,
        kernel_entry(Kernel::AttnOut) == "main_attn_out"@,
        kernel_entry(Kernel::AttnProj) == "main_attn_proj"@,
        kernel_entry(Kernel::FfnNorm) == "main_ffn_norm"@,
        kernel_entry(Kernel::FfnProj) == "main_ffn_proj"@,
        kernel_entry(Kernel::FfnDown) == "main_ffn_down"@,
        kernel_entry(Kernel::PostAttnNorm) == "main_post_attn_norm"@,
        kernel_entry(Kernel::PostFfwNorm) == "main_post_ffw_norm"@,
        kernel_entry(Kernel::LmHeadBlob) == "main_lm_head"@,
        kernel_entry(Kernel::AttnOutInt4) == "main_attn_out_int4"@,
        kernel_entry(Kernel::QuantizeKv) == "quantize_kv"@,
        kernel_entry(Kernel::PleInput) == "main"@,
        kernel_entry(Kernel::PleBlock) == "main"@,
        kernel_entry(Kernel::RopeShift) == "main"@,
        kernel_entry(Kernel::RopeShiftInt4) == "main"@,
        kernel_entry(Kernel::VitLn1) == "main_vit_ln1"@,
        kernel_entry(Kernel::VitQkv) == "main_vit_qkv"@,
        kernel_entry(Kernel::VitAttn) == "main_vit_attn"@,
        kernel_entry(Kernel::VitAttnProj) == "main_vit_attn_proj"@,
        kernel_entry(Kernel::VitLn2) == "main_vit_ln2"@,
        kernel_entry(Kernel::VitFfnUp) == "main_vit_ffn_up"@,
        kernel_entry(Kernel::VitFfnDown) == "main_vit_ffn_down"@,
        kernel_entry(Kernel::VitPostLn) == "main_vit_post_ln"@,
        kernel_entry(Kernel::RspInitQ) == "main_rsp_init_q"@,
        kernel_entry(Kernel::RspKvLin) == "main_rsp_kv_lin"@,
        kernel_entry(Kernel::RspLnKv) == "main_rsp_ln_kv"@,
        kernel_entry(Kernel::RspProjK) == "main_rsp_proj_k"@,
        kernel_entry(Kernel::RspProjV) == "main_rsp_proj_v"@,
        kernel_entry(Kernel::RspLnQ) == "main_rsp_ln_q"@,
        kernel_entry(Kernel::RspProjQ) == "main_rsp_proj_q"@,
        kernel_entry(Kernel::RspCopyQ) == "main_rsp_copy_q"@,
        kernel_entry(Kernel::RspAttn) == "main_rsp_attn"@,
        kernel_entry(Kernel::RspOutProj) == "main_rsp_out_proj"@,
        kernel_entry(Kernel::RspPostLn) == "main_rsp_post_ln"@,
        kernel_entry(Kernel::RspFinalProj) == "main_rsp_final_proj"@,
{
}

/// The kernels of the layers bind a layer; the INT4 forms have layouts of their own.
/// Every other kernel of the language model has the layout of its name.
pub proof fn law_kernels_have_their_layouts(kernel: Kernel)
    ensures
        kernel_layout(kernel) == Layout::Vit <==> vit_kernels().contains(kernel),
        kernel_layout(kernel) == Layout::Resampler <==> resampler_kernel_list().contains(kernel),
        kernel_layout(kernel) == Layout::RopeShift || kernel_layout(kernel) == Layout::RopeShiftInt4
            <==> shift_kernels().contains(kernel),
        kernel_layout(Kernel::Probe) == Layout::Probe,
        kernel_layout(Kernel::Dequant) == Layout::Dequant,
        kernel_layout(Kernel::DequantAny) == Layout::DequantAny,
        kernel_layout(Kernel::MatMul) == Layout::MatMul,
        kernel_layout(Kernel::MatMulF32) == Layout::MatMulF32,
        kernel_layout(Kernel::RmsNorm) == Layout::RmsNorm,
        kernel_layout(Kernel::LmHeadBlob) == Layout::LmHeadBlob,
        kernel_layout(Kernel::AttnOutInt4) == Layout::LayerInt4,
        kernel_layout(Kernel::QuantizeKv) == Layout::QuantizeKv,
        kernel_layout(Kernel::PleInput) == Layout::PleInput,
        kernel_layout(Kernel::PleBlock) == Layout::PleBlock,
        kernel_layout(Kernel::RopeShift) == Layout::RopeShift,
        kernel_layout(Kernel::RopeShiftInt4) == Layout::RopeShiftInt4,
        kernel_layout(kernel) == Layout::Layer <==> {
            ||| kernel == Kernel::AttnNorm || kernel == Kernel::Qkv || kernel == Kernel::QkNorm
            ||| kernel == Kernel::AttnOut || kernel == Kernel::AttnProj
            ||| kernel == Kernel::FfnNorm || kernel == Kernel::FfnProj || kernel == Kernel::FfnDown
            ||| kernel == Kernel::PostAttnNorm || kernel == Kernel::PostFfwNorm
            ||| kernel == Kernel::Q4kQkv || kernel == Kernel::Q4kAttnOut
            ||| kernel == Kernel::Q4kAttnProj || kernel == Kernel::Q4kFfnProj
            ||| kernel == Kernel::Q4kFfnDown
        },
{
    let v = vit_kernels();
    assert(v[0] == Kernel::VitLn1 && v[1] == Kernel::VitQkv && v[2] == Kernel::VitAttn);
    assert(v[3] == Kernel::VitAttnProj && v[4] == Kernel::VitLn2 && v[5] == Kernel::VitFfnUp);
    assert(v[6] == Kernel::VitFfnDown && v[7] == Kernel::VitPostLn);
    let r = resampler_kernel_list();
    assert(r[0] == Kernel::RspInitQ && r[1] == Kernel::RspKvLin && r[2] == Kernel::RspLnKv);
    assert(r[3] == Kernel::RspProjK && r[4] == Kernel::RspProjV && r[5] == Kernel::RspLnQ);
    assert(r[6] == Kernel::RspProjQ && r[7] == Kernel::RspCopyQ && r[8] == Kernel::RspAttn);
    assert(r[9] == Kernel::RspOutProj && r[10] == Kernel::RspPostLn);
    assert(r[11] == Kernel::RspFinalProj);
    let s = shift_kernels();
    assert(s[0] == Kernel::RopeShift && s[1] == Kernel::RopeShiftInt4);
}

/// The kernels of per-layer embeddings read the blob, the tokens and their inputs,
/// and write what they compute: the latent input, or the residual stream.
pub proof fn law_ple_bindings()
    ensures
        ({
            let a = layout_table(Layout::PleInput);
            let b = layout_table(Layout::PleBlock);
            &&& a.len() == 12 && b.len() == 15
            &&& a[0] == read_only(0) && a[1] == read_only(1) && a[2] == read_only(2)
            &&& a[3] == uniform(3) && a[4] == read_write(4)
            &&& b[0] == read_only(0) && b[1] == read_write(1) && b[2] == read_write(2)
            &&& b[3] == uniform(3) && b[4] == uniform(4) && b[5] == uniform(9)
            &&& b[6] == read_only(17) && b[7] == read_only(18)
            &&& forall|i: int| 5 <= i < 12 ==> #[trigger] a[i] == read_only((i + 5) as u32)
            &&& forall|i: int| 8 <= i < 15 ==> #[trigger] b[i] == read_only((i + 2) as u32)
        }),
{
}

} // verus!
