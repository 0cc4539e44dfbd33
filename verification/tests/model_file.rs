use ainukey::model_file::{parse_model, Span, BHH, BIH, EMB, PROJB, PROJW, WHH, WIH};

/// A tiny valid f32 model: V=5, E=1, H=1.
fn synth() -> Vec<u8> {
    let mut b = Vec::new();
    b.extend(b"AKLS");
    b.extend(1u32.to_le_bytes());
    let (v, e, h) = (5u32, 1u32, 1u32);
    b.extend(v.to_le_bytes());
    b.extend(e.to_le_bytes());
    b.extend(h.to_le_bytes());
    b.push(1); // layers
    b.push(0); // quant = f32
    for w in ["<pad>", "<unk>", "<bos>", "<eos>", "ku"] {
        b.push(w.len() as u8);
        b.extend(w.as_bytes());
    }
    let put = |b: &mut Vec<u8>, xs: &[f32]| {
        for x in xs {
            b.extend(x.to_le_bytes());
        }
    };
    put(&mut b, &[0.0, 0.0, 0.0, 0.0, 1.0]); // emb
    put(&mut b, &[0.0, 0.0, 2.0, 0.0]); // Wih
    put(&mut b, &[0.0, 0.0, 0.0, 0.0]); // Whh
    put(&mut b, &[0.0, 0.0, 0.0, 0.0, 3.0]); // projW
    put(&mut b, &[10.0, -10.0, 0.0, 10.0]); // bih
    put(&mut b, &[0.0, 0.0, 0.0, 0.0]); // bhh
    put(&mut b, &[0.0, 0.0, 0.0, 0.0, 0.5]); // projB
    b
}

#[test]
fn rejects_garbage() {
    assert!(parse_model(b"nope").is_none());
    assert!(parse_model(b"AKLS\x01").is_none());
    assert!(parse_model(&[]).is_none());
}

#[test]
fn parses_the_layout_of_a_float_model() {
    let bytes = synth();
    let m = parse_model(&bytes).expect("valid");
    assert_eq!(m.vocab_size(), 5);
    assert_eq!(m.vocab, vec!["<pad>", "<unk>", "<bos>", "<eos>", "ku"]);
    assert_eq!((m.embed_dim, m.hidden, m.quantized), (1, 1, false));
    let f = |offset, count| Span { offset, count, quantized: false };
    assert_eq!(m.tensors[EMB], f(49, 5));
    assert_eq!(m.tensors[WIH], f(69, 4));
    assert_eq!(m.tensors[WHH], f(85, 4));
    assert_eq!(m.tensors[PROJW], f(101, 5));
    assert_eq!(m.tensors[BIH], f(121, 4));
    assert_eq!(m.tensors[BHH], f(137, 4));
    assert_eq!(m.tensors[PROJB], f(153, 5));
    assert_eq!(bytes.len(), 173);
    // The weights decode from their spans.
    let s = m.tensors[PROJW];
    let last = s.offset + 4 * (s.count - 1);
    assert_eq!(f32::from_le_bytes(bytes[last..last + 4].try_into().unwrap()), 3.0);
}

#[test]
fn truncated_or_empty_models_are_rejected() {
    let bytes = synth();
    assert!(parse_model(&bytes[..bytes.len() - 1]).is_none());
    let mut zero_h = bytes.clone();
    zero_h[16..20].copy_from_slice(&0u32.to_le_bytes());
    assert!(parse_model(&zero_h).is_none());
    let mut v2 = bytes.clone();
    v2[4..8].copy_from_slice(&2u32.to_le_bytes());
    assert!(parse_model(&v2).is_none());
    // Extra trailing bytes are ignored.
    let mut longer = bytes.clone();
    longer.push(7);
    assert!(parse_model(&longer).is_some());
}

#[test]
fn quantized_matrices_take_a_scale_and_a_byte_per_value() {
    let mut b = Vec::new();
    b.extend(b"AKLS");
    b.extend(1u32.to_le_bytes());
    for d in [5u32, 2, 1] {
        b.extend(d.to_le_bytes());
    }
    b.push(1);
    b.push(1); // int8
    for w in ["<pad>", "<unk>", "<bos>", "<eos>", "ku"] {
        b.push(w.len() as u8);
        b.extend(w.as_bytes());
    }
    let start = b.len();
    // emb 5x2, Wih 4x2, Whh 4x1, projW 5x1: scale + bytes each; then biases f32.
    let big = [10usize, 8, 4, 5];
    for n in big {
        b.extend(0.5f32.to_le_bytes());
        b.extend(std::iter::repeat(1u8).take(n));
    }
    for n in [4usize, 4, 5] {
        for _ in 0..n {
            b.extend(0.0f32.to_le_bytes());
        }
    }
    let m = parse_model(&b).expect("valid");
    assert!(m.quantized);
    assert_eq!(m.tensors[EMB], Span { offset: start, count: 10, quantized: true });
    assert_eq!(m.tensors[WIH], Span { offset: start + 14, count: 8, quantized: true });
    assert_eq!(m.tensors[WHH], Span { offset: start + 26, count: 4, quantized: true });
    assert_eq!(m.tensors[PROJW], Span { offset: start + 34, count: 5, quantized: true });
    assert_eq!(m.tensors[BIH], Span { offset: start + 43, count: 4, quantized: false });
    assert_eq!(m.tensors[PROJB].offset + 4 * 5, b.len());
}

#[test]
fn vocabulary_lookups() {
    let m = parse_model(&synth()).expect("valid");
    assert_eq!(m.word_id("ku"), 4);
    assert_eq!(m.word_id("kamuy"), 1); // unknown
    assert_eq!(m.bos(), 2);
    assert_eq!(m.completion_ids("k"), vec![4]);
    assert_eq!(m.completion_ids("ku"), vec![4]);
    assert!(m.completion_ids("z").is_empty());
    assert!(m.completion_ids("").is_empty());
    // Special tokens are never completions.
    assert!(m.completion_ids("<").is_empty());
    assert_eq!(m.clamp_id(99), 4);
    assert_eq!(m.clamp_id(3), 3);
}
