use nanogpt_120a::checkpoint::format::{FormatError, VERSION};
use nanogpt_120a::checkpoint::load::{load_checkpoint, CheckpointError, LengthField};
use nanogpt_120a::checkpoint::model::{HostBlock, HostModel, HostNextLatent, HostNvfp4, HostPair};
use nanogpt_120a::checkpoint::reader::CheckpointReader;
use nanogpt_120a::checkpoint::save::encode_checkpoint;
use nanogpt_120a::checkpoint::schema::tensor_count;
use nanogpt_120a::checkpoint::writer::CheckpointWriter;

const MAGIC: &[u8] = b"GPT2_NVFP4_CHECKPOINT\n";

fn tensor(seed: u8) -> HostNvfp4 {
    HostNvfp4 {
        bytes: (0..16).map(|i| seed.wrapping_add(i)).collect(),
        scales: vec![seed, seed.wrapping_mul(3)],
        global_scale_bits: 0x3f80_0000 + seed as u32,
        len: 32,
    }
}

fn pair(seed: u8) -> HostPair {
    HostPair { weight: tensor(seed), bias: tensor(seed.wrapping_add(100)) }
}

fn block(seed: u8) -> HostBlock {
    HostBlock {
        ln_1: pair(seed),
        attn_qkv: pair(seed + 1),
        attn_c_proj: pair(seed + 2),
        ln_2: pair(seed + 3),
        mlp_up: pair(seed + 4),
        mlp_down: pair(seed + 5),
    }
}

fn model(n_layer: usize) -> HostModel {
    HostModel {
        token_embedding: tensor(1),
        blocks: (0..n_layer).map(|i| block(10 + 10 * i as u8)).collect(),
        ln_f: pair(2),
        next_latent: HostNextLatent {
            norm: pair(3),
            input_projection: pair(4),
            transition: pair(5),
            output_projection: pair(6),
        },
    }
}

fn same_tensor(a: &HostNvfp4, b: &HostNvfp4) -> bool {
    a.bytes == b.bytes && a.scales == b.scales && a.global_scale_bits == b.global_scale_bits
        && a.len == b.len
}

fn same_pair(a: &HostPair, b: &HostPair) -> bool {
    same_tensor(&a.weight, &b.weight) && same_tensor(&a.bias, &b.bias)
}

fn header(count: u32) -> Vec<u8> {
    let mut bytes = MAGIC.to_vec();
    bytes.extend_from_slice(&VERSION.to_le_bytes());
    bytes.extend_from_slice(&count.to_le_bytes());
    bytes
}

#[test]
fn saved_model_loads_back_unchanged() {
    for n_layer in [0usize, 1, 3] {
        let saved = model(n_layer);
        let bytes = encode_checkpoint(&saved);
        let loaded = load_checkpoint(bytes, n_layer).expect("checkpoint loads");
        assert_eq!(loaded.blocks.len(), n_layer);
        assert!(same_tensor(&loaded.token_embedding, &saved.token_embedding));
        assert!(same_pair(&loaded.ln_f, &saved.ln_f));
        assert!(same_pair(&loaded.next_latent.transition, &saved.next_latent.transition));
        for (a, b) in loaded.blocks.iter().zip(saved.blocks.iter()) {
            assert!(same_pair(&a.ln_1, &b.ln_1));
            assert!(same_pair(&a.attn_qkv, &b.attn_qkv));
            assert!(same_pair(&a.mlp_down, &b.mlp_down));
        }
    }
}

#[test]
fn encoded_checkpoint_starts_with_header() {
    let bytes = encode_checkpoint(&model(2));
    assert_eq!(&bytes[..22], MAGIC);
    assert_eq!(&bytes[22..26], &2u32.to_le_bytes());
    assert_eq!(&bytes[26..30], &35u32.to_le_bytes());
    assert_eq!(tensor_count(2), 35);
    assert_eq!(tensor_count(0), 11);
}

#[test]
fn writer_and_reader_agree_on_a_record() {
    let mut writer = CheckpointWriter::new();
    writer.write_header(1);
    writer.write_tensor("token_embedding", 32, 7, &[1, 2, 3], &[9]);
    let bytes = writer.finish();
    assert_eq!(bytes.len(), 30 + 32 + 15 + 3 + 1);
    let mut reader = CheckpointReader::new(bytes);
    assert_eq!(reader.read_header(), Ok(1));
    let t = reader.read_tensor().expect("record reads");
    assert_eq!(t.name, "token_embedding");
    assert_eq!(t.len, 32);
    assert_eq!(t.global_scale_bits, 7);
    assert_eq!(t.bytes, vec![1, 2, 3]);
    assert_eq!(t.scales, vec![9]);
    assert_eq!(reader.read_tensor().err(), Some(FormatError::UnexpectedEof));
}

#[test]
fn rejects_bad_magic() {
    let mut bytes = header(11);
    bytes[0] = b'X';
    assert!(matches!(
        load_checkpoint(bytes, 0),
        Err(CheckpointError::Format(FormatError::InvalidMagic))
    ));
}

#[test]
fn rejects_short_input() {
    assert!(matches!(
        load_checkpoint(MAGIC[..10].to_vec(), 0),
        Err(CheckpointError::Format(FormatError::UnexpectedEof))
    ));
}

#[test]
fn rejects_other_version() {
    let mut bytes = MAGIC.to_vec();
    bytes.extend_from_slice(&3u32.to_le_bytes());
    bytes.extend_from_slice(&11u32.to_le_bytes());
    assert!(matches!(
        load_checkpoint(bytes, 0),
        Err(CheckpointError::Format(FormatError::UnsupportedVersion(3)))
    ));
}

#[test]
fn rejects_wrong_tensor_count() {
    let bytes = encode_checkpoint(&model(1));
    assert!(matches!(
        load_checkpoint(bytes, 0),
        Err(CheckpointError::TensorCountMismatch { found: 23, expected: 11 })
    ));
}

#[test]
fn rejects_invalid_utf8_name() {
    let mut writer = CheckpointWriter::new();
    writer.write_header(11);
    let mut bytes = writer.finish();
    bytes.extend_from_slice(&1u32.to_le_bytes());
    bytes.extend_from_slice(&0u64.to_le_bytes());
    bytes.extend_from_slice(&0u64.to_le_bytes());
    bytes.extend_from_slice(&0u64.to_le_bytes());
    bytes.extend_from_slice(&0u32.to_le_bytes());
    bytes.push(0xff);
    assert!(matches!(
        load_checkpoint(bytes, 0),
        Err(CheckpointError::Format(FormatError::InvalidUtf8))
    ));
}

#[test]
fn rejects_duplicate_names() {
    let mut writer = CheckpointWriter::new();
    writer.write_header(11);
    for _ in 0..11 {
        writer.write_tensor("token_embedding", 32, 0, &[0; 16], &[0; 2]);
    }
    assert!(matches!(
        load_checkpoint(writer.finish(), 0),
        Err(CheckpointError::DuplicateTensorName)
    ));
}

#[test]
fn rejects_missing_tensor() {
    let mut writer = CheckpointWriter::new();
    writer.write_header(11);
    for i in 0..11 {
        writer.write_tensor(&format!("extra.{i}"), 32, 0, &[0; 16], &[0; 2]);
    }
    match load_checkpoint(writer.finish(), 0) {
        Err(CheckpointError::MissingTensor(name)) => assert_eq!(name, "token_embedding"),
        other => panic!("unexpected result: {:?}", other.err()),
    }
}

#[test]
fn rejects_length_mismatch() {
    let mut broken = model(0);
    broken.token_embedding.bytes.pop();
    let bytes = encode_checkpoint(&broken);
    match load_checkpoint(bytes, 0) {
        Err(CheckpointError::LengthMismatch { name, field, actual, expected }) => {
            assert_eq!(name, "token_embedding");
            assert_eq!(field, LengthField::Bytes);
            assert_eq!(actual, 15);
            assert_eq!(expected, 16);
        }
        other => panic!("unexpected result: {:?}", other.err()),
    }

    let mut broken = model(0);
    broken.ln_f.bias.scales.push(1);
    match load_checkpoint(encode_checkpoint(&broken), 0) {
        Err(CheckpointError::LengthMismatch { name, field, actual, expected }) => {
            assert_eq!(name, "ln_f.bias");
            assert_eq!(field, LengthField::Scales);
            assert_eq!(actual, 3);
            assert_eq!(expected, 2);
        }
        other => panic!("unexpected result: {:?}", other.err()),
    }
}

#[test]
fn errors_report_their_messages() {
    assert_eq!(FormatError::UnexpectedEof.message(), "failed to fill whole buffer");
    assert_eq!(FormatError::InvalidMagic.message(), "invalid GPT2 NVFP4 checkpoint magic");
    assert_eq!(FormatError::UnsupportedVersion(1).message(), "unsupported checkpoint version 1");
    assert_eq!(FormatError::InvalidUtf8.message(), "invalid utf-8 in checkpoint tensor name");
    assert_eq!(
        CheckpointError::Format(FormatError::InvalidMagic).message(),
        "invalid GPT2 NVFP4 checkpoint magic"
    );
    assert_eq!(
        CheckpointError::TensorCountMismatch { found: 23, expected: 11 }.message(),
        "checkpoint has 23 tensors; expected 11"
    );
    assert_eq!(
        CheckpointError::DuplicateTensorName.message(),
        "checkpoint contains duplicate tensor name"
    );
    assert_eq!(
        CheckpointError::MissingTensor("ln_f.bias".to_string()).message(),
        "checkpoint is missing tensor ln_f.bias"
    );
    let mut broken = model(0);
    broken.token_embedding.bytes.pop();
    let error = load_checkpoint(encode_checkpoint(&broken), 0).err().unwrap();
    assert_eq!(error.message(), "token_embedding has 15 bytes; expected 16");
    let scales = CheckpointError::LengthMismatch {
        name: "x".to_string(),
        field: LengthField::Scales,
        actual: 3,
        expected: 2,
    };
    assert_eq!(scales.message(), "x has 3 scales; expected 2");
}
