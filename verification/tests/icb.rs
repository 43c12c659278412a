use rlx_metal::command::{Activation, Buf, Cmd, Group, HalfFlag, Kernel, Size};
use rlx_metal::encode::elementwise::BinaryOp;
use rlx_metal::encode::norm::encode_layer_norm;
use rlx_metal::icb::{
    compile_segments, encode_thunk_into_icb, icb_kernels, is_icb_compatible, thunk_kind,
    try_compile, IcbStep, Thunk,
};

fn copy(dt: HalfFlag) -> Thunk {
    Thunk::Copy { src: 4096, dst: 8192, len: 10, dt }
}

fn gelu() -> Thunk {
    Thunk::ActivationInPlace { data: 256, len: 33, act: Activation::Gelu, dt: HalfFlag::F32 }
}

fn rope() -> Thunk {
    Thunk::Rope {
        src: 1,
        cos: 2,
        sin: 3,
        dst: 4,
        batch: 2,
        seq: 5,
        hidden: 64,
        head_dim: 32,
        n_rot: 16,
        src_row_stride: 64,
        cos_per_token: true,
        interleaved: false,
        dt: HalfFlag::F32,
    }
}

#[test]
fn kinds_have_names() {
    assert_eq!(thunk_kind(&Thunk::Nop), "Nop");
    assert_eq!(thunk_kind(&Thunk::SoftmaxCrossEntropyDense), "SoftmaxCrossEntropy");
    assert_eq!(thunk_kind(&gelu()), "ActivationInPlace");
    assert_eq!(thunk_kind(&Thunk::Other), "Other");
}

#[test]
fn only_single_precision_is_compatible() {
    assert!(is_icb_compatible(&copy(HalfFlag::F32)));
    assert!(!is_icb_compatible(&copy(HalfFlag::F16)));
    assert!(is_icb_compatible(&rope()));
    for t in [Thunk::Nop, Thunk::Sgemm, Thunk::Softmax, Thunk::Other] {
        assert!(!is_icb_compatible(&t));
    }
}

#[test]
fn runs_become_segments() {
    let c = copy(HalfFlag::F32);
    let thunks = [
        Thunk::Nop,
        c,
        Thunk::Nop,
        gelu(),
        Thunk::Sgemm,
        c,
        Thunk::Cast,
        Thunk::Nop,
        Thunk::Nop,
        Thunk::Sgemm,
        c,
        c,
        c,
    ];
    let out = compile_segments(&thunks);
    let ranges: Vec<(usize, usize, u64)> = out
        .iter()
        .map(|r| (r.start, r.end, r.segment.command_count))
        .collect();
    assert_eq!(ranges, vec![(0, 4, 2), (10, 13, 3)]);
    assert_eq!(out[1].segment.constants_bytes, 3 * 64);
    assert_eq!(
        out[1]
            .segment
            .steps
            .iter()
            .filter(|s| matches!(s, IcbStep::Barrier))
            .count(),
        3
    );
}

#[test]
fn the_strict_mode_takes_all_or_nothing() {
    let c = copy(HalfFlag::F32);
    assert!(try_compile(&[]).is_none());
    assert!(try_compile(&[Thunk::Nop]).is_none());
    assert!(try_compile(&[c, Thunk::Sgemm]).is_none());
    let one = try_compile(&[Thunk::Nop, c]).expect("one command");
    assert_eq!(one.command_count, 1);
}

#[test]
fn constants_of_later_commands_lie_in_their_own_slices() {
    let c = copy(HalfFlag::F32);
    let two = try_compile(&[c, c]).expect("two commands");
    assert_eq!(
        two.steps[10..13],
        [
            IcbStep::Write64(64, 4096),
            IcbStep::Write64(72, 8192),
            IcbStep::Write32(80, 10),
        ]
    );
}

#[test]
fn gelu_takes_the_arena_base_and_silu_an_offset() {
    let mut cmd = Vec::new();
    encode_thunk_into_icb(&mut cmd, &gelu(), 0);
    assert_eq!(
        cmd,
        vec![
            IcbStep::Pipeline(Kernel::GeluInplace),
            IcbStep::Write64(0, 256),
            IcbStep::Write32(8, 33),
            IcbStep::Arena(0, 0),
            IcbStep::Constant(1, 0),
            IcbStep::Constant(2, 8),
            IcbStep::Threads(
                Size { width: 33, height: 1, depth: 1 },
                Group::ExecWidth(Kernel::GeluInplace, 33)
            ),
        ]
    );
    let mut cmd = Vec::new();
    let silu =
        Thunk::ActivationInPlace { data: 256, len: 33, act: Activation::Silu, dt: HalfFlag::F32 };
    encode_thunk_into_icb(&mut cmd, &silu, 128);
    assert_eq!(
        cmd[..4],
        [
            IcbStep::Pipeline(Kernel::SiluInplace),
            IcbStep::Write32(128, 33),
            IcbStep::Arena(0, 256),
            IcbStep::Constant(1, 128),
        ]
    );
}

#[test]
fn rows_go_along_the_width_with_power_of_two_groups() {
    let mut cmd = Vec::new();
    let ln = Thunk::LayerNorm {
        src: 0,
        g: 64,
        b: 128,
        dst: 192,
        rows: 7,
        h: 100,
        eps: 1e-5f32.to_bits(),
        dt: HalfFlag::F32,
    };
    encode_thunk_into_icb(&mut cmd, &ln, 0);
    assert_eq!(
        cmd.last(),
        Some(&IcbStep::Groups(
            Size { width: 7, height: 1, depth: 1 },
            Size { width: 64, height: 1, depth: 1 }
        ))
    );
    assert_eq!(cmd[1], IcbStep::Write32(4, 1e-5f32.to_bits()));
}

#[test]
fn rope_binds_thirteen_slots() {
    let mut cmd = Vec::new();
    encode_thunk_into_icb(&mut cmd, &rope(), 0);
    let slots: Vec<u64> = cmd
        .iter()
        .filter_map(|s| match s {
            IcbStep::Arena(slot, _) | IcbStep::Constant(slot, _) => Some(*slot),
            _ => None,
        })
        .collect();
    assert_eq!(slots, (0..13).collect::<Vec<u64>>());
    assert_eq!(
        cmd.last(),
        Some(&IcbStep::Threads(
            Size { width: 32, height: 2, depth: 10 },
            Group::Fixed(Size { width: 16, height: 2, depth: 1 })
        ))
    );
    assert!(cmd.contains(&IcbStep::Write32(28, 1)));
    assert!(cmd.contains(&IcbStep::Write32(32, 0)));
}

#[test]
fn uncovered_steps_launch_nothing() {
    let mut cmd = Vec::new();
    let bias = Thunk::BiasAdd { src: 0, bias: 8, dst: 16, m: 2, n: 3, dt: HalfFlag::F32 };
    encode_thunk_into_icb(&mut cmd, &bias, 0);
    let tanh =
        Thunk::ActivationInPlace { data: 0, len: 4, act: Activation::Tanh, dt: HalfFlag::F32 };
    encode_thunk_into_icb(&mut cmd, &tanh, 0);
    assert!(cmd.is_empty());
    let sub = Thunk::BinaryFull {
        lhs: 0,
        rhs: 16,
        dst: 32,
        len: 4,
        op: BinaryOp::Sub,
        dt: HalfFlag::F32,
    };
    encode_thunk_into_icb(&mut cmd, &sub, 0);
    assert_eq!(
        cmd,
        vec![
            IcbStep::Write64(0, 0),
            IcbStep::Write64(8, 16),
            IcbStep::Write64(16, 32),
            IcbStep::Write32(24, 4),
        ]
    );
}

#[test]
fn uncovered_steps_run_inline() {
    let c = copy(HalfFlag::F32);
    let moved = Thunk::BiasAdd { src: 0, bias: 8, dst: 16, m: 2, n: 3, dt: HalfFlag::F32 };
    let placed = Thunk::BiasAdd { src: 16, bias: 8, dst: 16, m: 2, n: 3, dt: HalfFlag::F32 };
    let act = |act| Thunk::ActivationInPlace { data: 0, len: 4, act, dt: HalfFlag::F32 };
    let binary = |op| Thunk::BinaryFull {
        lhs: 0,
        rhs: 16,
        dst: 32,
        len: 4,
        op,
        dt: HalfFlag::F32,
    };
    for t in [moved, act(Activation::Tanh), act(Activation::GeluApprox), binary(BinaryOp::Sub)] {
        assert!(!is_icb_compatible(&t));
        assert!(try_compile(&[c, t]).is_none());
        let out = compile_segments(&[c, c, t, c, c, c]);
        let ranges: Vec<(usize, usize)> = out.iter().map(|r| (r.start, r.end)).collect();
        assert_eq!(ranges, vec![(0, 2), (3, 6)]);
    }
    for t in [placed, act(Activation::Silu), binary(BinaryOp::Add), binary(BinaryOp::Mul)] {
        assert!(is_icb_compatible(&t));
        let segment = try_compile(&[c, t]).expect("two commands");
        let launches = segment
            .steps
            .iter()
            .filter(|s| matches!(s, IcbStep::Threads(..) | IcbStep::Groups(..)))
            .count();
        assert_eq!(launches, 2);
    }
}

#[test]
fn a_narrow_binds_its_zero_offsets() {
    let mut cmd = Vec::new();
    let narrow = Thunk::Narrow {
        src: 64,
        dst: 128,
        outer: 3,
        src_axis: 40,
        start: 8,
        len: 20,
        dt: HalfFlag::F32,
    };
    encode_thunk_into_icb(&mut cmd, &narrow, 64);
    assert!(cmd.contains(&IcbStep::Write64(80, 0)));
    assert!(cmd.contains(&IcbStep::Constant(7, 88)));
    assert_eq!(
        cmd.last(),
        Some(&IcbStep::Threads(
            Size { width: 20, height: 3, depth: 1 },
            Group::Fixed(Size { width: 16, height: 3, depth: 1 })
        ))
    );
}

#[test]
fn commands_select_kernels_of_their_own() {
    let table = icb_kernels();
    assert_eq!(table.len(), 10);
    assert_eq!(table[0], (Kernel::BiasAdd, "bias_add"));
    assert_eq!(table[9], (Kernel::Rope, "rope"));
    for t in [copy(HalfFlag::F32), gelu(), rope()] {
        let mut cmd = Vec::new();
        encode_thunk_into_icb(&mut cmd, &t, 64);
        for step in cmd {
            if let IcbStep::Pipeline(k) = step {
                assert!(table.iter().any(|(kernel, _)| *kernel == k));
            }
        }
    }
}

/// What a command binds and launches is what the direct encoder sets and launches.
#[test]
fn segments_mirror_the_direct_encoder() {
    let norm = Thunk::LayerNorm {
        src: 16,
        g: 32,
        b: 48,
        dst: 64,
        rows: 6,
        h: 100,
        eps: 77,
        dt: HalfFlag::F32,
    };
    let mut direct = Vec::new();
    encode_layer_norm(&mut direct, 16, 32, 48, 64, 6, 100, 77, HalfFlag::F32);
    let mut cmd = Vec::new();
    encode_thunk_into_icb(&mut cmd, &norm, 128);
    for step in direct {
        let found = cmd.iter().any(|part| match (step, *part) {
            (Cmd::Pipeline(a), IcbStep::Pipeline(b)) => a == b,
            (Cmd::Buffer(s, Buf::Arena, off), IcbStep::Arena(t, o)) => s == t && off == o,
            (Cmd::U32(s, v), IcbStep::Constant(t, place)) => {
                s == t && cmd.contains(&IcbStep::Write32(place, v))
            }
            (Cmd::Groups(a, b), IcbStep::Groups(c, d)) => a == c && b == d,
            _ => false,
        });
        assert!(found, "{step:?}");
    }
}
