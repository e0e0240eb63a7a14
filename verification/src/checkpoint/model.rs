use vstd::prelude::*;

use super::format::TensorRecord;
use super::schema::{block_part, block_prefix, dotted, next_latent_part};

verus! {

/// One NVFP4 tensor held on the host: packed bytes, per-block scales, the bit
/// pattern of its `f32` global scale and its element count.
pub struct HostNvfp4 {
    pub bytes: Vec<u8>,
    pub scales: Vec<u8>,
    pub global_scale_bits: u32,
    pub len: usize,
}

/// A weight and a bias stored under one prefix (layer norms and linear layers).
pub struct HostPair {
    pub weight: HostNvfp4,
    pub bias: HostNvfp4,
}

/// The tensors of one transformer block.
pub struct HostBlock {
    pub ln_1: HostPair,
    pub attn_qkv: HostPair,
    pub attn_c_proj: HostPair,
    pub ln_2: HostPair,
    pub mlp_up: HostPair,
    pub mlp_down: HostPair,
}

/// The tensors of the next-latent head.
pub struct HostNextLatent {
    pub norm: HostPair,
    pub input_projection: HostPair,
    pub transition: HostPair,
    pub output_projection: HostPair,
}

/// A whole model held on the host, as a checkpoint stores it.
pub struct HostModel {
    pub token_embedding: HostNvfp4,
    pub blocks: Vec<HostBlock>,
    pub ln_f: HostPair,
    pub next_latent: HostNextLatent,
}

/// The record that stores tensor `t` under `name`.
pub open spec fn tensor_record(name: Seq<char>, t: HostNvfp4) -> TensorRecord {
    TensorRecord {
        name,
        len: t.len,
        global_scale_bits: t.global_scale_bits,
        bytes: t.bytes@,
        scales: t.scales@,
    }
}

/// The weight and bias records of `p` under `prefix`.
pub open spec fn pair_records(prefix: Seq<char>, p: HostPair) -> Seq<TensorRecord> {
    seq![
        tensor_record(dotted(prefix, "weight"@), p.weight),
        tensor_record(dotted(prefix, "bias"@), p.bias),
    ]
}

/// The twelve records of block `b` at index `i`.
pub open spec fn block_records(i: nat, b: HostBlock) -> Seq<TensorRecord> {
    pair_records(dotted(block_prefix(i), block_part(0)), b.ln_1)
        + pair_records(dotted(block_prefix(i), block_part(1)), b.attn_qkv)
        + pair_records(dotted(block_prefix(i), block_part(2)), b.attn_c_proj)
        + pair_records(dotted(block_prefix(i), block_part(3)), b.ln_2)
        + pair_records(dotted(block_prefix(i), block_part(4)), b.mlp_up)
        + pair_records(dotted(block_prefix(i), block_part(5)), b.mlp_down)
}

/// The records of the blocks in `bs`, block 0 first.
pub open spec fn blocks_records(bs: Seq<HostBlock>) -> Seq<TensorRecord>
    decreases bs.len(),
{
    if bs.len() == 0 {
        seq![]
    } else {
        blocks_records(bs.drop_last()) + block_records((bs.len() - 1) as nat, bs.last())
    }
}

/// The eight records of the next-latent head.
pub open spec fn next_latent_records(n: HostNextLatent) -> Seq<TensorRecord> {
    pair_records(dotted("next_latent"@, next_latent_part(0)), n.norm)
        + pair_records(dotted("next_latent"@, next_latent_part(1)), n.input_projection)
        + pair_records(dotted("next_latent"@, next_latent_part(2)), n.transition)
        + pair_records(dotted("next_latent"@, next_latent_part(3)), n.output_projection)
}

/// Every record of model `m`, in the order a checkpoint stores them.
pub open spec fn model_records(m: HostModel) -> Seq<TensorRecord> {
    seq![tensor_record("token_embedding"@, m.token_embedding)] + blocks_records(m.blocks@)
        + pair_records("ln_f"@, m.ln_f) + next_latent_records(m.next_latent)
}

} // verus!
