use vgrep::ranking::{rank_candidates, score_key, Candidate};

fn c(path: &str, score: u64) -> Candidate {
    Candidate { path: path.to_string(), score }
}

#[test]
fn best_chunk_per_file_sorted() {
    let hits = vec![c("a.rs", 5), c("b.rs", 9), c("a.rs", 7), c("c.rs", 1), c("b.rs", 3)];
    assert_eq!(rank_candidates(&hits, 10), vec![1, 2, 3]);
    assert_eq!(rank_candidates(&hits, 2), vec![1, 2]);
    assert_eq!(rank_candidates(&hits, 0), Vec::<usize>::new());
}

#[test]
fn ties_keep_the_first_hit() {
    let hits = vec![c("a.rs", 4), c("a.rs", 4), c("b.rs", 4)];
    assert_eq!(rank_candidates(&hits, 5), vec![0, 2]);
    assert_eq!(rank_candidates(&Vec::new(), 5), Vec::<usize>::new());
}

#[test]
fn score_keys_order_like_scores() {
    let scores: [f32; 11] = [
        f32::NEG_INFINITY,
        -1.5,
        -0.25,
        -f32::MIN_POSITIVE,
        -0.0,
        0.0,
        f32::MIN_POSITIVE,
        0.25,
        0.9,
        1.5,
        f32::INFINITY,
    ];
    for a in scores {
        for b in scores {
            let (ka, kb) = (score_key(a.to_bits()), score_key(b.to_bits()));
            assert_eq!(ka < kb, a < b, "{a} {b}");
            assert_eq!(ka == kb, a == b, "{a} {b}");
        }
    }
    assert_eq!(score_key(0.0f32.to_bits()), 0x8000_0001);
    assert_eq!(score_key((-0.0f32).to_bits()), 0x8000_0001);
    assert_eq!(score_key(1.0f32.to_bits()), 0x8000_0001 + 0x3f80_0000);
    assert_eq!(score_key((-1.0f32).to_bits()), 0x8000_0000 - 0x3f80_0000);
}

#[test]
fn nan_scores_key_lowest() {
    assert_eq!(score_key(f32::NAN.to_bits()), 0);
    assert!(score_key(f32::NEG_INFINITY.to_bits()) > 0);
}

#[test]
fn ranking_by_float_scores() {
    let hits = vec![
        c("a.rs", score_key(0.5f32.to_bits())),
        c("b.rs", score_key(0.9f32.to_bits())),
        c("a.rs", score_key(0.7f32.to_bits())),
        c("c.rs", score_key((-0.1f32).to_bits())),
    ];
    assert_eq!(rank_candidates(&hits, 10), vec![1, 2, 3]);
}

#[test]
fn nan_first_chunk_is_kept_for_its_file() {
    let nan = score_key(f32::NAN.to_bits());
    let hits = vec![c("a.rs", nan), c("a.rs", score_key(0.9f32.to_bits())), c("b.rs", score_key(0.5f32.to_bits()))];
    assert_eq!(rank_candidates(&hits, 10), vec![2, 0]);
}

#[test]
fn later_nan_chunk_never_replaces() {
    let nan = score_key(f32::NAN.to_bits());
    let hits = vec![
        c("a.rs", score_key(0.5f32.to_bits())),
        c("a.rs", nan),
        c("a.rs", score_key(0.7f32.to_bits())),
    ];
    assert_eq!(rank_candidates(&hits, 10), vec![2]);
    let hits = vec![c("a.rs", score_key(0.5f32.to_bits())), c("a.rs", nan)];
    assert_eq!(rank_candidates(&hits, 10), vec![0]);
}
