use vstd::prelude::*;

use super::format::{records_concat, spec_header, spec_record, spec_records, TensorRecord};
use super::model::{
    blocks_records, block_records, model_records, next_latent_records, pair_records,
    tensor_record, HostBlock, HostModel, HostNextLatent, HostNvfp4, HostPair,
};
use super::schema::{block_part, block_prefix, dotted, join_name, next_latent_part, spec_tensor_count, tensor_count};
use crate::text::decimal_string;
use super::writer::CheckpointWriter;

verus! {

proof fn records_of_two(a: TensorRecord, b: TensorRecord)
    ensures
        spec_records(seq![a, b]) == spec_record(a) + spec_record(b),
{
    assert(seq![a, b].drop_last() =~= seq![a]);
    assert(seq![a].drop_last() =~= Seq::<TensorRecord>::empty());
    assert(spec_records(Seq::<TensorRecord>::empty()) =~= Seq::<u8>::empty());
    assert(seq![a].last() == a);
    assert(spec_records(seq![a]) =~= spec_record(a));
}

proof fn records_of_one(a: TensorRecord)
    ensures
        spec_records(seq![a]) == spec_record(a),
{
    assert(seq![a].drop_last() =~= Seq::<TensorRecord>::empty());
    assert(spec_records(Seq::<TensorRecord>::empty()) =~= Seq::<u8>::empty());
    assert(seq![a].last() == a);
    assert(spec_records(seq![a]) =~= spec_record(a));
}

/// Writes tensor `tensor` under `name`.
pub fn write_tensor(writer: &mut CheckpointWriter, name: &str, tensor: &HostNvfp4)
    ensures
        final(writer).written() == old(writer).written() + spec_record(tensor_record(name@, *tensor)),
{
    writer.write_tensor(
        name,
        tensor.len,
        tensor.global_scale_bits,
        tensor.bytes.as_slice(),
        tensor.scales.as_slice(),
    );
}

/// Writes the weight and then the bias of `pair` under `prefix`.
pub fn write_uploaded_pair(writer: &mut CheckpointWriter, prefix: &str, pair: &HostPair)
    ensures
        final(writer).written() == old(writer).written() + spec_records(
            pair_records(prefix@, *pair),
        ),
{
    let weight = join_name(prefix, "weight");
    write_tensor(writer, weight.as_str(), &pair.weight);
    let bias = join_name(prefix, "bias");
    write_tensor(writer, bias.as_str(), &pair.bias);
    proof {
        records_of_two(
            tensor_record(dotted(prefix@, "weight"@), pair.weight),
            tensor_record(dotted(prefix@, "bias"@), pair.bias),
        );
        assert(final(writer).written() =~= old(writer).written() + spec_records(
            pair_records(prefix@, *pair),
        ));
    }
}

/// Writes the twelve tensors of block `index`.
pub fn write_block(writer: &mut CheckpointWriter, index: usize, block: &HostBlock)
    ensures
        final(writer).written() == old(writer).written() + spec_records(
            block_records(index as nat, *block),
        ),
{
    let number = decimal_string(index);
    let prefix = join_name("blocks", number.as_str());
    assert(prefix@ == block_prefix(index as nat));
    let ghost w0 = writer.written();
    let p0 = join_name(prefix.as_str(), "ln_1");
    write_uploaded_pair(writer, p0.as_str(), &block.ln_1);
    let p1 = join_name(prefix.as_str(), "attn_qkv");
    write_uploaded_pair(writer, p1.as_str(), &block.attn_qkv);
    let p2 = join_name(prefix.as_str(), "attn_c_proj");
    write_uploaded_pair(writer, p2.as_str(), &block.attn_c_proj);
    let p3 = join_name(prefix.as_str(), "ln_2");
    write_uploaded_pair(writer, p3.as_str(), &block.ln_2);
    let p4 = join_name(prefix.as_str(), "mlp_up");
    write_uploaded_pair(writer, p4.as_str(), &block.mlp_up);
    let p5 = join_name(prefix.as_str(), "mlp_down");
    write_uploaded_pair(writer, p5.as_str(), &block.mlp_down);
    proof {
        let bp = block_prefix(index as nat);
        let r0 = pair_records(dotted(bp, block_part(0)), block.ln_1);
        let r1 = pair_records(dotted(bp, block_part(1)), block.attn_qkv);
        let r2 = pair_records(dotted(bp, block_part(2)), block.attn_c_proj);
        let r3 = pair_records(dotted(bp, block_part(3)), block.ln_2);
        let r4 = pair_records(dotted(bp, block_part(4)), block.mlp_up);
        let r5 = pair_records(dotted(bp, block_part(5)), block.mlp_down);
        records_concat(r0, r1);
        records_concat(r0 + r1, r2);
        records_concat(r0 + r1 + r2, r3);
        records_concat(r0 + r1 + r2 + r3, r4);
        records_concat(r0 + r1 + r2 + r3 + r4, r5);
        assert(final(writer).written() =~= w0 + spec_records(block_records(index as nat, *block)));
    }
}

/// Writes the eight tensors of the next-latent head.
pub fn write_next_latent(writer: &mut CheckpointWriter, next_latent: &HostNextLatent)
    ensures
        final(writer).written() == old(writer).written() + spec_records(
            next_latent_records(*next_latent),
        ),
{
    let ghost w0 = writer.written();
    let p0 = join_name("next_latent", "norm");
    write_uploaded_pair(writer, p0.as_str(), &next_latent.norm);
    let p1 = join_name("next_latent", "input_projection");
    write_uploaded_pair(writer, p1.as_str(), &next_latent.input_projection);
    let p2 = join_name("next_latent", "transition");
    write_uploaded_pair(writer, p2.as_str(), &next_latent.transition);
    let p3 = join_name("next_latent", "output_projection");
    write_uploaded_pair(writer, p3.as_str(), &next_latent.output_projection);
    proof {
        let r0 = pair_records(dotted("next_latent"@, next_latent_part(0)), next_latent.norm);
        let r1 = pair_records(
            dotted("next_latent"@, next_latent_part(1)),
            next_latent.input_projection,
        );
        let r2 = pair_records(dotted("next_latent"@, next_latent_part(2)), next_latent.transition);
        let r3 = pair_records(
            dotted("next_latent"@, next_latent_part(3)),
            next_latent.output_projection,
        );
        records_concat(r0, r1);
        records_concat(r0 + r1, r2);
        records_concat(r0 + r1 + r2, r3);
        assert(final(writer).written() =~= w0 + spec_records(next_latent_records(*next_latent)));
    }
}

/// Writes every tensor of `model` in checkpoint order: token embedding,
/// blocks, final norm, next-latent head.
pub fn write_model(writer: &mut CheckpointWriter, model: &HostModel)
    ensures
        final(writer).written() == old(writer).written() + spec_records(model_records(*model)),
{
    let ghost w0 = writer.written();
    let ghost tok = seq![tensor_record("token_embedding"@, model.token_embedding)];
    write_tensor(writer, "token_embedding", &model.token_embedding);
    proof {
        records_of_one(tensor_record("token_embedding"@, model.token_embedding));
        assert(model.blocks@.take(0) =~= Seq::<HostBlock>::empty());
        assert(tok + blocks_records(model.blocks@.take(0)) =~= tok);
    }
    let n = model.blocks.len();
    let mut index: usize = 0;
    while index < n
        invariant
            n == model.blocks.len(),
            index <= n,
            writer.written() == w0 + spec_records(
                tok + blocks_records(model.blocks@.take(index as int)),
            ),
        decreases n - index,
    {
        write_block(writer, index, &model.blocks[index]);
        proof {
            let bs = model.blocks@.take(index as int + 1);
            assert(bs.drop_last() =~= model.blocks@.take(index as int));
            assert(bs.last() == model.blocks@[index as int]);
            let prev = tok + blocks_records(model.blocks@.take(index as int));
            let blk = block_records(index as nat, model.blocks@[index as int]);
            records_concat(prev, blk);
            assert(tok + blocks_records(bs) =~= prev + blk);
        }
        index = index + 1;
    }
    assert(model.blocks@.take(n as int) =~= model.blocks@);
    let ghost before_tail = tok + blocks_records(model.blocks@);
    write_uploaded_pair(writer, "ln_f", &model.ln_f);
    write_next_latent(writer, &model.next_latent);
    proof {
        let lnf = pair_records("ln_f"@, model.ln_f);
        let nl = next_latent_records(model.next_latent);
        records_concat(before_tail, lnf);
        records_concat(before_tail + lnf, nl);
        assert(before_tail + lnf + nl =~= model_records(*model));
    }
}

/// The bytes of a checkpoint of `model`: the header announcing its tensor
/// count, then every tensor record in checkpoint order.
pub fn encode_checkpoint(model: &HostModel) -> (bytes: Vec<u8>)
    requires
        spec_tensor_count(model.blocks.len() as nat) <= u32::MAX,
    ensures
        bytes@ == spec_header(spec_tensor_count(model.blocks.len() as nat) as u32)
            + spec_records(model_records(*model)),
{
    let mut writer = CheckpointWriter::new();
    writer.write_header(tensor_count(model.blocks.len()));
    write_model(&mut writer, model);
    let bytes = writer.finish();
    assert(bytes@ =~= spec_header(spec_tensor_count(model.blocks.len() as nat) as u32)
        + spec_records(model_records(*model)));
    bytes
}

} // verus!
