//! The model: its layers, the plans of its passes, and what is read back.

use lisa_rs::model::branch::{KEY_SCALE_BITS, QUERY_SCALE_BITS};
use lisa_rs::model::command::{u32_bytes, Arg, BufferId, Extent, Kernel, Library, Owner};
use lisa_rs::model::dispatch::EPS_BITS;
use lisa_rs::model::layout::{MtpScratchLayout, ScratchLayout};
use lisa_rs::model::mtp::MtpRunner;
use lisa_rs::model::readback::{argmax, best_partial, words_of};
use lisa_rs::model::runner::profile::{token_profile, Section};
use lisa_rs::model::runner::{
    QwenRunner, ABLATE_ATTENTION, ABLATE_GDN, ABLATE_LM_HEAD, ABLATE_MLP, CACHE_ROW_BYTES,
    CONV_STATE_BYTES, GDN_BYTES,
};
use lisa_rs::model::weights::WeightIndex;
use lisa_rs::model::{layer_kind, LayerKind, HIDDEN, LAYERS, PREFILL_BATCH, VOCAB};

#[test]
fn qwen35_layer_schedule() {
    assert_eq!(layer_kind(0), LayerKind::Gdn);
    assert_eq!(layer_kind(3), LayerKind::Attention);
    assert_eq!(layer_kind(63), LayerKind::Attention);
    assert_eq!(
        (0..LAYERS)
            .filter(|index| layer_kind(*index) == LayerKind::Attention)
            .count(),
        16
    );
}

// ---------------------------------------------------------------------------
// Checkpoints of which only the headers are there
// ---------------------------------------------------------------------------

type Tensors = Vec<(String, &'static str, Vec<usize>)>;

fn q4(tensors: &mut Tensors, prefix: String, input: usize, output: usize) {
    tensors.push((format!("{prefix}.weight"), "U32", vec![output, input / 8]));
    tensors.push((format!("{prefix}.scales"), "BF16", vec![output, input / 64]));
    tensors.push((format!("{prefix}.biases"), "BF16", vec![output, input / 64]));
}

fn bf16(tensors: &mut Tensors, name: String, shape: &[usize]) {
    tensors.push((name, "BF16", shape.to_vec()));
}

fn mlp(tensors: &mut Tensors, prefix: &str) {
    q4(tensors, format!("{prefix}.mlp.gate_proj"), 5120, 17408);
    q4(tensors, format!("{prefix}.mlp.up_proj"), 5120, 17408);
    q4(tensors, format!("{prefix}.mlp.down_proj"), 17408, 5120);
}

fn attention(tensors: &mut Tensors, prefix: &str) {
    q4(tensors, format!("{prefix}.self_attn.q_proj"), 5120, 12288);
    q4(tensors, format!("{prefix}.self_attn.k_proj"), 5120, 1024);
    q4(tensors, format!("{prefix}.self_attn.v_proj"), 5120, 1024);
    q4(tensors, format!("{prefix}.self_attn.o_proj"), 6144, 5120);
    bf16(tensors, format!("{prefix}.self_attn.q_norm.weight"), &[256]);
    bf16(tensors, format!("{prefix}.self_attn.k_norm.weight"), &[256]);
}

fn target_tensors() -> Tensors {
    let mut tensors = Tensors::new();
    for layer in 0..64 {
        let prefix = format!("language_model.model.layers.{layer}");
        bf16(&mut tensors, format!("{prefix}.input_layernorm.weight"), &[5120]);
        bf16(&mut tensors, format!("{prefix}.post_attention_layernorm.weight"), &[5120]);
        mlp(&mut tensors, &prefix);
        if layer % 4 == 3 {
            attention(&mut tensors, &prefix);
        } else {
            let p = format!("{prefix}.linear_attn");
            q4(&mut tensors, format!("{p}.in_proj_qkv"), 5120, 10240);
            q4(&mut tensors, format!("{p}.in_proj_z"), 5120, 6144);
            q4(&mut tensors, format!("{p}.in_proj_a"), 5120, 48);
            q4(&mut tensors, format!("{p}.in_proj_b"), 5120, 48);
            q4(&mut tensors, format!("{p}.out_proj"), 6144, 5120);
            bf16(&mut tensors, format!("{p}.conv1d.weight"), &[10240, 4, 1]);
            bf16(&mut tensors, format!("{p}.A_log"), &[48]);
            bf16(&mut tensors, format!("{p}.dt_bias"), &[48]);
            bf16(&mut tensors, format!("{p}.norm.weight"), &[128]);
        }
    }
    q4(&mut tensors, "language_model.model.embed_tokens".into(), 5120, 248320);
    bf16(&mut tensors, "language_model.model.norm.weight".into(), &[5120]);
    q4(&mut tensors, "language_model.lm_head".into(), 5120, 248320);
    tensors
}

fn mtp_tensors() -> Tensors {
    let mut tensors = Tensors::new();
    bf16(&mut tensors, "pre_fc_norm_embedding.weight".into(), &[5120]);
    bf16(&mut tensors, "pre_fc_norm_hidden.weight".into(), &[5120]);
    q4(&mut tensors, "fc".into(), 10240, 5120);
    bf16(&mut tensors, "layers.0.input_layernorm.weight".into(), &[5120]);
    attention(&mut tensors, "layers.0");
    bf16(&mut tensors, "layers.0.post_attention_layernorm.weight".into(), &[5120]);
    mlp(&mut tensors, "layers.0");
    bf16(&mut tensors, "norm.weight".into(), &[5120]);
    tensors
}

/// A file with the tensors in its header: the data of the `i`th start at the byte `i`.
fn file_of(tensors: &Tensors) -> Vec<u8> {
    let mut header = String::from("{");
    let mut data_len = 0;
    for (i, (name, dtype, shape)) in tensors.iter().enumerate() {
        if i > 0 {
            header.push(',');
        }
        let width = if *dtype == "U32" { 4 } else { 2 };
        let end = i + width * shape.iter().product::<usize>();
        data_len = data_len.max(end);
        header.push_str(&format!(
            "\"{name}\":{{\"dtype\":\"{dtype}\",\"shape\":{shape:?},\"data_offsets\":[{i},{end}]}}"
        ));
    }
    header.push('}');
    let mut file = vec![0; 8 + header.len() + data_len];
    file[..8].copy_from_slice(&(header.len() as u64).to_le_bytes());
    file[8..8 + header.len()].copy_from_slice(header.as_bytes());
    file
}

/// A file without any tensors. Beside it, the tensors of another one may overlap.
fn empty_file() -> Vec<u8> {
    file_of(&Tensors::new())
}

fn with_target(capacity: usize, then: impl FnOnce(QwenRunner)) {
    let file = file_of(&target_tensors());
    let none = empty_file();
    let files: Vec<&[u8]> = vec![&file, &none];
    let index = WeightIndex::try_open(&files).ok().expect("index");
    then(QwenRunner::load(&index, capacity).expect("target"));
}

fn with_both(capacity: usize, then: impl FnOnce(QwenRunner, MtpRunner)) {
    with_target(capacity, |target| {
        let file = file_of(&mtp_tensors());
        let none = empty_file();
        let files: Vec<&[u8]> = vec![&file, &none];
        let index = WeightIndex::try_open(&files).ok().expect("index");
        let drafter = MtpRunner::load(&target, &index, capacity).expect("drafter");
        then(target, drafter);
    });
}

fn load_error(tensors: &Tensors, capacity: usize) -> String {
    let file = file_of(tensors);
    let none = empty_file();
    let files: Vec<&[u8]> = vec![&file, &none];
    let index = WeightIndex::try_open(&files).ok().expect("index");
    QwenRunner::load(&index, capacity).expect_err("it loads")
}

#[test]
fn checkpoints_that_cannot_be_loaded() {
    let tensors = target_tensors();
    assert_eq!(load_error(&tensors, 0), "KV capacity must be greater than zero");
    assert_eq!(load_error(&tensors, 1 << 32), "KV capacity exceeds the kernel index range");
    let mut missing = target_tensors();
    missing.retain(|(name, _, _)| name != "language_model.model.layers.2.mlp.up_proj.scales");
    assert_eq!(
        load_error(&missing, 1),
        "missing tensor language_model.model.layers.2.mlp.up_proj.scales"
    );
    let mut wrong = target_tensors();
    wrong.last_mut().unwrap().2 = vec![7, 80];
    assert_eq!(
        load_error(&wrong, 1),
        "invalid tensor language_model.lm_head.biases: BF16 [7, 80], expected BF16 [248320, 80]"
    );
}

#[test]
fn drafters_that_cannot_be_loaded() {
    with_target(4, |target| {
        let error = |tensors: &Tensors, capacity: usize| {
            let file = file_of(tensors);
            let none = empty_file();
            let files: Vec<&[u8]> = vec![&file, &none];
            let index = WeightIndex::try_open(&files).ok().expect("index");
            MtpRunner::load(&target, &index, capacity).expect_err("it loads")
        };
        assert_eq!(error(&mtp_tensors(), 0), "MTP KV capacity must be greater than zero");
        assert_eq!(
            error(&mtp_tensors(), 1 << 32),
            "MTP KV capacity exceeds the kernel index range"
        );
        let mut fewer = mtp_tensors();
        assert_eq!(fewer.len(), 31);
        fewer.pop();
        assert_eq!(
            error(&fewer, 4),
            "invalid MTP checkpoint: found 30 tensors, expected 31"
        );
        fewer.push(("other".into(), "BF16", vec![1]));
        assert_eq!(error(&fewer, 4), "missing tensor norm.weight");
    });
}

// ---------------------------------------------------------------------------
// Passes of the target
// ---------------------------------------------------------------------------

#[test]
fn a_token_runs_all_layers() {
    with_target(3, |mut target| {
        let pass = target.forward_token_decode(2005).unwrap();
        assert_eq!(pass.rows, 1);
        assert_eq!(pass.buffer, BufferId::Scratch);
        assert_eq!(pass.input, 2005u32.to_le_bytes());
        assert_eq!(target.position(), 1);
        let count = |kernel: Kernel| pass.plan.iter().filter(|d| d.kernel == kernel).count();
        assert_eq!(count(Kernel::Embed), 1);
        assert_eq!(count(Kernel::GdnRecurrence), 48);
        assert_eq!(count(Kernel::AttnSdpa), 16);
        assert_eq!(count(Kernel::Silu), 64);
        assert_eq!(count(Kernel::Residual), 128);
        assert_eq!(count(Kernel::Rms), 129);
        assert_eq!(count(Kernel::Argmax), 1);
        assert_eq!(pass.plan.len(), 1 + 64 * 13 + 2 + 1);

        let full = target.forward_token_with_hidden(7).unwrap();
        assert_eq!(full.plan.len() + 1, pass.plan.len());
        let sdpa = full.plan.iter().find(|d| d.kernel == Kernel::AttnSdpa).unwrap();
        assert_eq!(sdpa.args[4], Arg::Word(2));
        assert_eq!(sdpa.args[5], Arg::Word(3));
    });
}

#[test]
fn weights_are_found_where_they_lie() {
    with_target(3, |mut target| {
        let tensors = target_tensors();
        let at = |name: &str| tensors.iter().position(|t| t.0 == name).unwrap() as u64;
        let pass = target.forward_token_with_hidden(0).unwrap();
        let shard = BufferId::Shard(Owner::Target, 0);
        assert_eq!(
            pass.plan[0].args[1],
            Arg::Buffer {
                buffer: shard,
                offset: at("language_model.model.embed_tokens.weight")
            }
        );
        assert_eq!(
            pass.plan[1].args[1],
            Arg::Buffer {
                buffer: shard,
                offset: at("language_model.model.layers.0.input_layernorm.weight")
            }
        );
        let head = pass.plan.last().unwrap();
        assert_eq!(head.kernel, Kernel::Qmv);
        assert_eq!(
            head.args[1],
            Arg::Buffer { buffer: shard, offset: at("language_model.lm_head.weight") }
        );
        assert_eq!(head.args[5], Arg::Words2(248320, 5120));
        match head.extent {
            Extent::Groups { grid, group } => {
                assert_eq!((grid.width, grid.height, grid.depth), (15520, 1, 1));
                assert_eq!(group.width, 128);
            }
            other => panic!("{other:?}"),
        }
    });
}

#[test]
fn tokens_that_cannot_be_fed() {
    with_target(2, |mut target| {
        assert_eq!(
            target.forward_token_decode(248320).unwrap_err(),
            "token 248320 is outside vocabulary"
        );
        assert_eq!(
            target.verify_block3([1, 2, 248320]).unwrap_err(),
            "verify token is outside vocabulary"
        );
        assert_eq!(target.verify_block3_decode([1, 2, 3]).unwrap_err(), "KV capacity 2 exhausted");
        assert_eq!(target.position(), 0);
        target.forward_token_decode(0).unwrap();
        target.forward_token_decode(0).unwrap();
        assert_eq!(target.forward_token_decode(0).unwrap_err(), "KV capacity 2 exhausted");
        assert_eq!(
            target.forward_prefill(&[1, 248320], 0).unwrap_err(),
            "prefill token is outside vocabulary"
        );
        assert_eq!(
            target.forward_prefill(&[1, 2, 3], 0).unwrap_err(),
            "KV capacity 2 exhausted by prefill of 3 tokens"
        );
        assert!(target.forward_prefill(&[], 0).unwrap().is_none());
    });
}

#[test]
fn parts_are_left_out_when_measured() {
    with_target(9, |mut target| {
        let kernels = |mask: u32, target: &mut QwenRunner| -> Vec<Kernel> {
            let pass = target.forward_token_ablate(1, mask).unwrap();
            pass.plan.iter().map(|d| d.kernel).collect()
        };
        let full = kernels(0, &mut target);
        assert!(full.contains(&Kernel::GdnConv) && full.contains(&Kernel::AttnSdpa));
        assert!(!kernels(ABLATE_GDN, &mut target).contains(&Kernel::GdnConv));
        assert!(!kernels(ABLATE_ATTENTION, &mut target).contains(&Kernel::AttnSdpa));
        assert!(!kernels(ABLATE_MLP, &mut target).contains(&Kernel::Silu));
        let headless = kernels(ABLATE_LM_HEAD, &mut target);
        assert_eq!(headless.len() + 1, full.len());
        assert_eq!(headless.last(), Some(&Kernel::Rms));
    });
}

#[test]
fn verified_prefixes_are_committed() {
    with_target(9, |mut target| {
        assert_eq!(
            target.commit_verified_prefix(1).unwrap_err(),
            "no pending block-3 verification"
        );
        target.forward_token_decode(5).unwrap();
        let pass = target.verify_block3_decode([1, 2, 3]).unwrap();
        assert_eq!(pass.rows, 3);
        assert_eq!(pass.input, u32_bytes(&[1, 2, 3]));
        assert_eq!(pass.plan.iter().filter(|d| d.kernel == Kernel::Argmax).count(), 3);
        assert_eq!(pass.plan.iter().filter(|d| d.kernel == Kernel::AttnSdpaBlock3).count(), 16);
        assert_eq!(target.position(), 4);
        let plan = target.commit_verified_prefix(2).unwrap();
        assert_eq!(target.position(), 3);
        assert_eq!(plan.len(), 2);
        assert_eq!(
            plan[0].args,
            vec![
                Arg::Buffer { buffer: BufferId::VerifyGdnSlots, offset: GDN_BYTES as u64 },
                Arg::Buffer { buffer: BufferId::GdnState, offset: 0 },
                Arg::Long(GDN_BYTES as u64),
            ]
        );
        assert_eq!(plan[1].args[2], Arg::Long(CONV_STATE_BYTES as u64));
        target.verify_block3([1, 2, 3]).unwrap();
        assert!(target.commit_verified_prefix(3).unwrap().is_empty());
        assert_eq!(target.position(), 6);
        target.verify_block3([1, 2, 3]).unwrap();
        assert_eq!(
            target.commit_verified_prefix(4).unwrap_err(),
            "verified prefix must contain 1 to 3 rows"
        );
        assert!(target.commit_verified_prefix(1).is_err());
    });
}

#[test]
fn states_are_saved_and_restored() {
    with_target(4, |mut target| {
        target.forward_token_decode(5).unwrap();
        let (saved, saving) = target.checkpoint_state();
        assert_eq!(saved.position(), 1);
        target.forward_token_decode(6).unwrap();
        target.forward_token_decode(7).unwrap();
        let restoring = target.restore_state(&saved).unwrap();
        assert_eq!(target.position(), 1);
        for (one, other) in saving.iter().zip(&restoring) {
            assert_eq!(one.kernel, Kernel::CopyBytes);
            assert_eq!((one.args[0], one.args[1], one.args[2]), (other.args[1], other.args[0], other.args[2]));
        }
        let plan = target.reset_state();
        assert_eq!(target.position(), 0);
        assert_eq!(plan.len(), 4);
        assert_eq!(plan[2].args[1], Arg::Long(4 * CACHE_ROW_BYTES as u64));
        with_target(9, |mut larger| {
            larger.forward_prefill(&[1; 9], 0).unwrap();
            let (saved, _) = larger.checkpoint_state();
            assert_eq!(
                target.restore_state(&saved).unwrap_err(),
                "checkpoint position 9 exceeds KV capacity 4"
            );
        });
    });
}

#[test]
fn prompts_run_in_chunks() {
    with_target(200, |mut target| {
        let tokens: Vec<u32> = (0..150).collect();
        let mut base = 0;
        let mut rows = Vec::new();
        let mut fed = Vec::new();
        while let Some(pass) = target.forward_prefill(&tokens, base).unwrap() {
            assert_eq!(pass.buffer, BufferId::PrefillScratch);
            base += pass.rows;
            rows.push(pass.rows);
            fed.extend(words_of(&pass.input));
            let searches = pass.plan.iter().filter(|d| d.kernel == Kernel::Argmax).count();
            assert_eq!(searches, pass.rows);
        }
        assert_eq!(rows, vec![64, 64, 22]);
        assert_eq!(fed, tokens);
        assert_eq!(target.position(), 150);
    });
}

#[test]
fn measured_parts_make_the_pass() {
    with_target(9, |mut target| {
        let parts = target.profile_token_m1_diagnostic(5).unwrap();
        target.reset_state();
        let pass = target.forward_token_with_hidden(5).unwrap();
        assert_eq!(parts.input, pass.input);
        assert_eq!(parts.parts.len(), 66);
        assert_eq!(parts.parts[0].section, Section::Embedding);
        assert_eq!(parts.parts[4].section, Section::Layer(3, LayerKind::Attention));
        assert_eq!(parts.parts[65].section, Section::Head);
        let whole: Vec<String> =
            parts.parts.iter().flat_map(|p| p.plan.iter().map(|d| format!("{d:?}"))).collect();
        let expected: Vec<String> = pass.plan.iter().map(|d| format!("{d:?}")).collect();
        assert_eq!(whole, expected);
    });
    let walls: Vec<u64> = (1..=8).collect();
    let profile = token_profile(5, &walls, 6, 7, 100);
    assert_eq!(profile.attention_wall, 4 + 8);
    assert_eq!(profile.gdn_wall, 1 + 2 + 3 + 5 + 6 + 7);
    assert_eq!(profile.layers[3].wall, 4);
    assert_eq!(profile.layers[3].kind, LayerKind::Attention);
    assert_eq!(profile.embedding_wall, 5);
    assert_eq!(profile.final_norm_lm_head_wall, 6);
    assert_eq!(profile.cpu_readback_argmax_wall, 7);
    assert_eq!(profile.total_wall, 100);
}

// ---------------------------------------------------------------------------
// Passes of the drafter
// ---------------------------------------------------------------------------

#[test]
fn a_draft_runs_one_layer() {
    with_both(2, |_, mut drafter| {
        let hidden: Vec<u32> = (0..HIDDEN).map(|i| (i as f32).to_bits()).collect();
        let pass = drafter.forward_position_decode(9, &hidden).unwrap();
        assert_eq!(pass.tokens, 9u32.to_le_bytes());
        assert_eq!(pass.hidden.len(), 2 * HIDDEN);
        assert_eq!(&pass.hidden[2..4], &[0x80, 0x3f]);
        assert_eq!(pass.hidden_at, MtpScratchLayout::new(1).target_hidden);
        assert_eq!(drafter.position(), 1);
        let kernels: Vec<Kernel> = pass.plan.iter().map(|d| d.kernel).collect();
        assert_eq!(kernels[0], Kernel::Embed);
        assert_eq!(kernels[4], Kernel::CastBf16);
        assert_eq!(*kernels.last().unwrap(), Kernel::Argmax);
        assert_eq!(kernels.len(), 6 + 6 + 2 + 3 + 2 + 1 + 1);
        let head = &pass.plan[pass.plan.len() - 2];
        assert!(matches!(
            head.args[1],
            Arg::Buffer { buffer: BufferId::Shard(Owner::Target, 0), .. }
        ));
        assert!(matches!(
            pass.plan[3].args[1],
            Arg::Buffer { buffer: BufferId::Shard(Owner::Mtp, 0), .. }
        ));
        let full = drafter.forward_position(9, &hidden).unwrap();
        assert_eq!(full.plan.len() + 1, pass.plan.len());
        assert_eq!(
            drafter.forward_position(9, &hidden).unwrap_err(),
            "MTP KV capacity 2 exhausted"
        );
    });
}

#[test]
fn positions_that_cannot_be_fed() {
    with_both(2, |_, mut drafter| {
        let hidden = vec![0u32; HIDDEN];
        assert_eq!(
            drafter.forward_position(248320, &hidden).unwrap_err(),
            "token 248320 is outside vocabulary"
        );
        assert_eq!(
            drafter.forward_position_decode(1, &hidden[1..]).unwrap_err(),
            "MTP target hidden has 5119 values, expected 5120"
        );
        let positions: Vec<(u32, &[u32])> = vec![(1, &hidden), (2, &hidden), (3, &hidden)];
        assert_eq!(
            drafter.forward_position_batch(&positions, 0).unwrap_err(),
            "MTP KV capacity 2 exhausted by prefill of 3 positions"
        );
        assert_eq!(
            drafter.trim_state(1).unwrap_err(),
            "cannot trim 1 MTP positions from 0"
        );
        assert_eq!(drafter.position(), 0);
    });
}

#[test]
fn positions_run_in_chunks() {
    with_both(100, |_, mut drafter| {
        let states: Vec<Vec<u32>> = (0..70).map(|i| vec![(i as u32) << 16; HIDDEN]).collect();
        let positions: Vec<(u32, &[u32])> =
            states.iter().enumerate().map(|(i, s)| (i as u32, &s[..])).collect();
        let first = drafter.forward_position_batch(&positions, 0).unwrap().unwrap();
        assert_eq!(first.rows, 64);
        assert_eq!(first.tokens, u32_bytes(&(0..64).collect::<Vec<u32>>()));
        assert_eq!(first.hidden.len(), 64 * 2 * HIDDEN);
        assert_eq!(first.hidden[2 * HIDDEN], 1);
        let second = drafter.forward_position_batch(&positions, 64).unwrap().unwrap();
        assert_eq!(second.rows, 6);
        assert_eq!(second.hidden[0], 64);
        assert!(drafter.forward_position_batch(&positions, 70).unwrap().is_none());
        assert_eq!(drafter.position(), 70);
        let saved = drafter.checkpoint_state();
        drafter.trim_state(69).unwrap();
        assert_eq!(drafter.position(), 1);
        drafter.restore_state(&saved).unwrap();
        assert_eq!(drafter.position(), 70);
        assert_eq!(drafter.reset_state().len(), 2);
        assert_eq!(drafter.position(), 0);
        with_both(5, |_, mut smaller| {
            assert_eq!(
                smaller.restore_state(&saved).unwrap_err(),
                "checkpoint position 70 exceeds KV capacity 5"
            );
        });
    });
}

// ---------------------------------------------------------------------------
// Layouts, constants, results
// ---------------------------------------------------------------------------

#[test]
fn scratch_memory_is_laid_out_in_order() {
    let one = ScratchLayout::new(1);
    assert_eq!(one.token, 0);
    assert_eq!(one.hidden, 16);
    assert_eq!(one.logits % 16, 0);
    assert_eq!(one.len, one.argmax_partial + 970 * 8);
    let drafter = MtpScratchLayout::new(3);
    assert_eq!(drafter.pre_fc_hidden, drafter.pre_fc + 3 * HIDDEN * 2);
    assert_eq!(drafter.token_embed, 16);
}

#[test]
fn constants_are_single_precision_numbers() {
    let inv = 1.0f32 / 128.0f32.sqrt();
    assert_eq!(EPS_BITS, 1e-6f32.to_bits());
    assert_eq!(KEY_SCALE_BITS, (inv * inv).to_bits());
    assert_eq!(QUERY_SCALE_BITS, inv.to_bits());
    assert_eq!(Arg::Word(0x0102_0304).constant(), Some(vec![4, 3, 2, 1]));
    assert_eq!(Arg::Words2(1, 2).constant(), Some(vec![1, 0, 0, 0, 2, 0, 0, 0]));
    assert_eq!(Arg::Long(0x1_0000_0002).constant(), Some(0x1_0000_0002u64.to_le_bytes().to_vec()));
    assert_eq!(Arg::Buffer { buffer: BufferId::Scratch, offset: 3 }.constant(), None);
    assert_eq!(Kernel::Argmax.source(), (Library::Embed, "argmax_f32_partial"));
    assert_eq!(Kernel::AttnSdpaPrefill.source(), (Library::Attention, "sdpa_decode_prefill"));
}

/// The place of the largest logit, as floating point numbers are compared.
fn float_argmax(values: &[f32]) -> u32 {
    values
        .iter()
        .enumerate()
        .max_by(|(_, left), (_, right)| left.total_cmp(right))
        .map_or(0, |(index, _)| index as u32)
}

/// The token of the largest partial result, as floating point numbers are compared.
fn float_best(maxes: &[f32], indices: &[u32]) -> u32 {
    let mut best = f32::NEG_INFINITY;
    let mut token = 0;
    for (value, index) in maxes.iter().zip(indices) {
        if *value > best {
            best = *value;
            token = *index;
        }
    }
    token
}

#[test]
fn largest_values_are_those_of_floating_point() {
    let nan = f32::NAN;
    let inf = f32::INFINITY;
    let lists: Vec<Vec<f32>> = vec![
        vec![],
        vec![1.0],
        vec![1.0, 3.0, 3.0, 2.0],
        vec![-1.0, -0.5, -0.5],
        vec![0.0, -0.0, 0.0],
        vec![-0.0, 0.0],
        vec![nan, 1.0],
        vec![1.0, nan, 2.0],
        vec![-nan, -inf],
        vec![-inf, -inf],
        vec![-inf, f32::MIN],
        vec![inf, f32::MAX, inf],
        vec![f32::MIN_POSITIVE, 1e-45, -1e-45],
        vec![nan],
    ];
    for list in lists {
        let bits: Vec<u32> = list.iter().map(|v| v.to_bits()).collect();
        assert_eq!(argmax(&bits), float_argmax(&list), "{list:?}");
        let indices: Vec<u32> = (0..list.len() as u32).map(|i| 100 + i).collect();
        assert_eq!(best_partial(&bits, &indices), float_best(&list, &indices), "{list:?}");
    }
    assert_eq!(words_of(&[1, 0, 0, 0, 0, 1, 0, 0, 9]), vec![1, 256]);
    assert_eq!(words_of(&u32_bytes(&[7, u32::MAX])), vec![7, u32::MAX]);
}

#[test]
fn results_are_read_where_the_search_leaves_them() {
    with_both(100, |mut target, mut drafter| {
        let pass = target.verify_block3_decode([1, 2, 3]).unwrap();
        let searches: Vec<_> =
            pass.plan.iter().filter(|d| d.kernel == Kernel::Argmax).collect();
        for row in 0..3 {
            let places = target.row_places(row);
            let at = |i: usize| match searches[row].args[i] {
                Arg::Buffer { offset, .. } => offset as usize,
                other => panic!("{other:?}"),
            };
            assert_eq!((places.logits, places.maxes, places.indices), (at(0), at(1), at(2)));
        }
        assert_eq!(target.row_places(1).hidden, target.row_places(0).hidden + 2 * HIDDEN);
        let last = target.prefill_row_places(PREFILL_BATCH - 1);
        assert_eq!(last.indices + 4 * 970, target.memory().1);
        assert_eq!(target.memory().2, 100 * CACHE_ROW_BYTES);

        let pass = drafter.forward_position_decode(1, &vec![0; HIDDEN]).unwrap();
        let places = drafter.row_places();
        assert_eq!(
            pass.plan.last().unwrap().args[1],
            Arg::Buffer { buffer: BufferId::Scratch, offset: places.maxes as u64 }
        );
        assert_eq!(places.hidden, MtpScratchLayout::new(1).normalized);
        assert_eq!(
            drafter.prefill_row_places(1).logits,
            drafter.prefill_row_places(0).logits + 4 * VOCAB
        );
        assert_eq!(drafter.memory().2, 100 * 2048);
    });
}
