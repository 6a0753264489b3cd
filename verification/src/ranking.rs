//! Ranking of search hits: the best chunk of each file is kept, files are
//! ordered by score, best first, and the list is cut to the number of
//! results asked for.
//!
//! Scores enter as integer keys ordered like the similarity scores they stand
//! for (`score_key` makes one from the bits of an `f32` score); the caller
//! keeps the scores and the rest of each hit, and takes back the positions of
//! the hits that the ranking keeps.
use vstd::prelude::*;

verus! {

/// The magnitude bits of an `f32`: all but the sign bit.
pub open spec fn magnitude_bits(bits: u32) -> u32 {
    bits & 0x7fff_ffffu32
}

/// The bits are those of a NaN: every exponent bit set and a fraction that is
/// not zero.
pub open spec fn is_nan_bits(bits: u32) -> bool {
    magnitude_bits(bits) > 0x7f80_0000u32
}

/// Where the `f32` with these bits stands among the numbers that are not NaN:
/// its magnitude bits with its sign. IEEE 754 orders those numbers by this
/// value, and both zeros stand at 0.
pub open spec fn float_rank(bits: u32) -> int {
    if bits & 0x8000_0000u32 != 0 {
        -(magnitude_bits(bits) as int)
    } else {
        magnitude_bits(bits) as int
    }
}

/// The key of a score: 0 for NaN, else a positive key that rises with
/// `float_rank`.
pub open spec fn score_key_spec(bits: u32) -> int {
    if is_nan_bits(bits) {
        0
    } else if float_rank(bits) >= 0 {
        0x8000_0001 + float_rank(bits)
    } else {
        0x8000_0000 + float_rank(bits)
    }
}

/// The score key of an `f32` score, given its bits (`f32::to_bits`): scores
/// that compare equal get one key, a higher score a higher key, and NaN the
/// lowest key of all.
pub fn score_key(bits: u32) -> (r: u64)
    ensures
        r == score_key_spec(bits),
{
    let m: u32 = bits & 0x7fff_ffffu32;
    if m > 0x7f80_0000u32 {
        return 0;
    }
    if bits & 0x8000_0000u32 != 0 && m != 0 {
        0x8000_0000u64 - (m as u64)
    } else {
        0x8000_0001u64 + (m as u64)
    }
}

/// Score keys order scores as `f32` compares them: among scores that are not
/// NaN, one key is below another exactly when its score is, and the keys are
/// equal exactly when the scores are; NaN gets a key below every other.
pub proof fn lemma_score_key_order(a: u32, b: u32)
    ensures
        !is_nan_bits(a) && !is_nan_bits(b) ==> (score_key_spec(a) < score_key_spec(b)
            <==> float_rank(a) < float_rank(b)),
        !is_nan_bits(a) && !is_nan_bits(b) ==> (score_key_spec(a) == score_key_spec(b)
            <==> float_rank(a) == float_rank(b)),
        is_nan_bits(a) && !is_nan_bits(b) ==> score_key_spec(a) < score_key_spec(b),
{
}

/// One search hit: the file it is in and its score key. A higher key is a
/// better score; the key 0 stands for a score that compares with none (NaN),
/// which no other score beats in the file it was first found for.
pub struct Candidate {
    pub path: String,
    pub score: u64,
}

/// No earlier hit is in the file of hit `k`.
pub open spec fn first_of_file(c: Seq<Candidate>, k: int) -> bool {
    forall|i: int| 0 <= i < k ==> #[trigger] c[i].path@ != c[k].path@
}

/// `k` is, among the first `n` hits, the hit kept for its file: the file's
/// first hit is kept, and a later hit replaces the kept one when it scores
/// higher and the kept one is not NaN. So `k` is the file's first hit when
/// that hit is NaN; else no hit of the file scores higher than `k`, and
/// every earlier hit of the file scores lower.
pub open spec fn best_of_file_in(c: Seq<Candidate>, n: int, k: int) -> bool {
    &&& 0 <= k < n <= c.len()
    &&& if c[k].score == 0 {
        first_of_file(c, k)
    } else {
        &&& forall|j: int|
            0 <= j < n && #[trigger] c[j].path@ == c[k].path@ ==> c[j].score <= c[k].score
        &&& forall|j: int|
            0 <= j < k && #[trigger] c[j].path@ == c[k].path@ ==> c[j].score < c[k].score
        &&& forall|j: int|
            0 <= j < k && c[j].path@ == c[k].path@ && #[trigger] first_of_file(c, j) ==> c[j].score
                != 0
    }
}

/// `k` is the best hit of its file.
pub open spec fn best_of_file(c: Seq<Candidate>, k: int) -> bool {
    best_of_file_in(c, c.len() as int, k)
}

/// No hit at the positions `r` is in the file of hit `k`.
pub open spec fn file_left_out(c: Seq<Candidate>, r: Seq<usize>, k: int) -> bool {
    forall|i: int| 0 <= i < r.len() ==> c[#[trigger] r[i] as int].path@ != c[k].path@
}

/// The ranking `r` of the hits `c` cut to `max` results: each kept hit is the
/// best of its file, no file twice, scores never rise along `r`, and a file
/// is left out only when `r` is full and its best hit beats no kept one.
pub open spec fn is_ranking(c: Seq<Candidate>, max: nat, r: Seq<usize>) -> bool {
    &&& r.len() <= max
    &&& forall|i: int| 0 <= i < r.len() ==> best_of_file(c, #[trigger] r[i] as int)
    &&& forall|i: int, j: int|
        0 <= i < j < r.len() ==> c[#[trigger] r[i] as int].path@ != c[#[trigger] r[j] as int].path@
    &&& forall|i: int, j: int|
        0 <= i < j < r.len() ==> c[#[trigger] r[i] as int].score >= c[#[trigger] r[j] as int].score
    &&& forall|k: int|
        best_of_file(c, k) && #[trigger] file_left_out(c, r, k) ==> r.len() == max && forall|i: int|
            0 <= i < r.len() ==> c[k].score <= c[#[trigger] r[i] as int].score
}

/// A file has one best hit.
pub proof fn lemma_best_of_file_unique(c: Seq<Candidate>, k: int, b: int)
    requires
        best_of_file(c, k),
        best_of_file(c, b),
        c[k].path@ == c[b].path@,
    ensures
        k == b,
{
    if k <= b {
        lemma_best_of_file_unique_ordered(c, k, b);
    } else {
        lemma_best_of_file_unique_ordered(c, b, k);
    }
}

proof fn lemma_best_of_file_unique_ordered(c: Seq<Candidate>, k: int, b: int)
    requires
        best_of_file(c, k),
        best_of_file(c, b),
        c[k].path@ == c[b].path@,
        k <= b,
    ensures
        k == b,
{
    if k < b {
        if c[b].score == 0 {
            assert(c[k].path@ != c[b].path@);
        } else if c[k].score == 0 {
            assert(first_of_file(c, k));
        } else {
            assert(c[k].score < c[b].score);
            assert(c[b].score <= c[k].score);
        }
    }
}

/// The file of hit `j` is the file of one of the hits at the positions `kept`.
pub open spec fn file_kept(c: Seq<Candidate>, kept: Seq<usize>, j: int) -> bool {
    exists|t: int| 0 <= t < kept.len() && c[#[trigger] kept[t] as int].path@ == c[j].path@
}

/// The best hit of each file, in the order the files first appear.
fn best_per_file(c: &Vec<Candidate>) -> (best: Vec<usize>)
    ensures
        forall|t: int| 0 <= t < best@.len() ==> best_of_file(c@, #[trigger] best@[t] as int),
        forall|s: int, t: int|
            0 <= s < t < best@.len() ==> c@[#[trigger] best@[s] as int].path@ != c@[#[trigger] best@[t] as int].path@,
        forall|j: int| 0 <= j < c@.len() ==> #[trigger] file_kept(c@, best@, j),
{
    let mut best: Vec<usize> = Vec::new();
    let mut k: usize = 0;
    while k < c.len()
        invariant
            k <= c.len(),
            forall|t: int| 0 <= t < best@.len() ==> best_of_file_in(c@, k as int, #[trigger] best@[t] as int),
            forall|t: int| 0 <= t < best@.len() ==> #[trigger] best@[t] < k,
            forall|s: int, t: int|
                0 <= s < t < best@.len() ==> c@[#[trigger] best@[s] as int].path@ != c@[#[trigger] best@[t] as int].path@,
            forall|j: int| 0 <= j < k ==> #[trigger] file_kept(c@, best@, j),
        decreases c.len() - k,
    {
        let mut t: usize = 0;
        let mut found = false;
        while t < best.len() && !found
            invariant
                t <= best.len(),
                k < c.len(),
                found ==> t < best.len() && c@[best@[t as int] as int].path@ == c@[k as int].path@,
                !found ==> forall|s: int| 0 <= s < t ==> c@[#[trigger] best@[s] as int].path@ != c@[k as int].path@,
                forall|s: int| 0 <= s < best@.len() ==> #[trigger] best@[s] < k,
            decreases best.len() - t + (if found { 0int } else { 1int }),
        {
            if c[best[t]].path == c[k].path {
                found = true;
            } else {
                t = t + 1;
            }
        }
        let ghost old_best = best@;
        if found {
            assert(c@[best@[t as int] as int].path@ == c@[k as int].path@);
            if c[best[t]].score != 0 && c[k].score > c[best[t]].score {
                best.set(t, k);
            }
            assert forall|s: int| 0 <= s < best@.len() implies best_of_file_in(
                c@,
                k + 1,
                #[trigger] best@[s] as int,
            ) by {
                let b = best@[s] as int;
                if s != t {
                    assert(best_of_file_in(c@, k as int, old_best[s] as int));
                    assert(c@[old_best[s] as int].path@ != c@[old_best[t as int] as int].path@);
                }
            }
            assert forall|j: int| 0 <= j < k + 1 implies #[trigger] file_kept(c@, best@, j) by {
                if j == k {
                    assert(c@[best@[t as int] as int].path@ == c@[j].path@);
                } else {
                    assert(file_kept(c@, old_best, j));
                    let u = choose|u: int|
                        0 <= u < old_best.len() && c@[#[trigger] old_best[u] as int].path@ == c@[j].path@;
                    assert(c@[best@[u] as int].path@ == c@[j].path@);
                }
            }
        } else {
            assert forall|j: int| 0 <= j < k implies #[trigger] c@[j].path@ != c@[k as int].path@ by {
                assert(file_kept(c@, old_best, j));
                let u = choose|u: int|
                    0 <= u < old_best.len() && c@[#[trigger] old_best[u] as int].path@ == c@[j].path@;
            }
            best.push(k);
            assert forall|s: int| 0 <= s < best@.len() implies best_of_file_in(
                c@,
                k + 1,
                #[trigger] best@[s] as int,
            ) by {
                if s < old_best.len() {
                    assert(best_of_file_in(c@, k as int, old_best[s] as int));
                }
            }
            assert forall|j: int| 0 <= j < k + 1 implies #[trigger] file_kept(c@, best@, j) by {
                if j == k {
                    assert(c@[best@[old_best.len() as int] as int].path@ == c@[j].path@);
                } else {
                    assert(file_kept(c@, old_best, j));
                    let u = choose|u: int|
                        0 <= u < old_best.len() && c@[#[trigger] old_best[u] as int].path@ == c@[j].path@;
                    assert(c@[best@[u] as int].path@ == c@[j].path@);
                }
            }
        }
        k = k + 1;
    }
    best
}

/// Ranks search hits: the best hit of each file, highest score first, at
/// most `max_results` of them. The positions of the kept hits are returned.
pub fn rank_candidates(candidates: &Vec<Candidate>, max_results: usize) -> (r: Vec<usize>)
    ensures
        is_ranking(candidates@, max_results as nat, r@),
{
    let c = candidates;
    let best = best_per_file(c);
    let mut used: Vec<bool> = Vec::new();
    let mut t: usize = 0;
    while t < best.len()
        invariant
            t <= best.len(),
            used@.len() == t,
            forall|s: int| 0 <= s < t ==> !used@[s],
        decreases best.len() - t,
    {
        used.push(false);
        t = t + 1;
    }
    let mut r: Vec<usize> = Vec::new();
    let ghost mut pos: Seq<int> = Seq::empty();
    loop
        invariant
            used@.len() == best@.len(),
            r@.len() <= max_results,
            pos.len() == r@.len(),
            forall|t: int| 0 <= t < best@.len() ==> best_of_file(c@, #[trigger] best@[t] as int),
            forall|s: int, t: int|
                0 <= s < t < best@.len() ==> c@[#[trigger] best@[s] as int].path@ != c@[#[trigger] best@[t] as int].path@,
            forall|j: int| 0 <= j < c@.len() ==> #[trigger] file_kept(c@, best@, j),
            forall|i: int| 0 <= i < pos.len() ==> 0 <= #[trigger] pos[i] < best@.len() && r@[i] == best@[pos[i]],
            forall|i: int, j: int| 0 <= i < j < pos.len() ==> #[trigger] pos[i] != #[trigger] pos[j],
            forall|t: int| 0 <= t < best@.len() ==> (#[trigger] used@[t] <==> pos.contains(t)),
            forall|i: int, j: int|
                0 <= i < j < r@.len() ==> c@[#[trigger] r@[i] as int].score >= c@[#[trigger] r@[j] as int].score,
            forall|i: int, t: int|
                0 <= i < r@.len() && 0 <= t < best@.len() && !#[trigger] used@[t] ==> c@[best@[t] as int].score
                    <= c@[#[trigger] r@[i] as int].score,
        ensures
            r@.len() == max_results || forall|t: int| 0 <= t < best@.len() ==> #[trigger] used@[t],
            used@.len() == best@.len(),
            r@.len() <= max_results,
            pos.len() == r@.len(),
            forall|i: int| 0 <= i < pos.len() ==> 0 <= #[trigger] pos[i] < best@.len() && r@[i] == best@[pos[i]],
            forall|i: int, j: int| 0 <= i < j < pos.len() ==> #[trigger] pos[i] != #[trigger] pos[j],
            forall|t: int| 0 <= t < best@.len() ==> (#[trigger] used@[t] <==> pos.contains(t)),
            forall|i: int, j: int|
                0 <= i < j < r@.len() ==> c@[#[trigger] r@[i] as int].score >= c@[#[trigger] r@[j] as int].score,
            forall|i: int, t: int|
                0 <= i < r@.len() && 0 <= t < best@.len() && !#[trigger] used@[t] ==> c@[best@[t] as int].score
                    <= c@[#[trigger] r@[i] as int].score,
        decreases max_results - r@.len(),
    {
        if r.len() >= max_results {
            break;
        }
        let mut pick: Option<usize> = None;
        let mut t: usize = 0;
        while t < best.len()
            invariant
                t <= best.len(),
                used@.len() == best@.len(),
                forall|t: int| 0 <= t < best@.len() ==> best_of_file(c@, #[trigger] best@[t] as int),
                match pick {
                    Some(u) => u < t && !used@[u as int] && forall|s: int|
                        0 <= s < t && !#[trigger] used@[s] ==> c@[best@[s] as int].score <= c@[best@[u as int] as int].score,
                    None => forall|s: int| 0 <= s < t ==> #[trigger] used@[s],
                },
            decreases best.len() - t,
        {
            if !used[t] {
                match pick {
                    Some(u) => {
                        if c[best[t]].score > c[best[u]].score {
                            pick = Some(t);
                        }
                    },
                    None => {
                        pick = Some(t);
                    },
                }
            }
            t = t + 1;
        }
        match pick {
            None => {
                break;
            },
            Some(u) => {
                let ghost old_used = used@;
                let ghost old_r = r@;
                let ghost old_pos = pos;
                used.set(u, true);
                r.push(best[u]);
                proof {
                    pos = pos.push(u as int);
                    assert forall|t: int| 0 <= t < best@.len() implies (#[trigger] used@[t]
                        <==> pos.contains(t)) by {
                        if t != u {
                            if pos.contains(t) {
                                let i = choose|i: int| 0 <= i < pos.len() && pos[i] == t;
                                assert(old_pos[i] == t);
                            }
                            if old_pos.contains(t) {
                                let i = choose|i: int| 0 <= i < old_pos.len() && old_pos[i] == t;
                                assert(pos[i] == t);
                            }
                        } else {
                            assert(pos[pos.len() - 1] == t);
                        }
                    }
                    assert forall|i: int, j: int| 0 <= i < j < pos.len() implies #[trigger] pos[i]
                        != #[trigger] pos[j] by {
                        if j == pos.len() - 1 {
                            assert(old_pos.contains(pos[i]));
                        }
                    }
                    assert forall|i: int, j: int|
                        0 <= i < j < r@.len() implies c@[#[trigger] r@[i] as int].score >= c@[#[trigger] r@[j] as int].score by {
                        if j == r@.len() - 1 {
                            assert(!old_used[u as int]);
                            assert(old_r[i] == r@[i]);
                        }
                    }
                }
            },
        }
    }
    proof {
        assert forall|i: int| 0 <= i < r@.len() implies best_of_file(c@, #[trigger] r@[i] as int) by {
            assert(best_of_file(c@, best@[pos[i]] as int));
        }
        assert forall|i: int, j: int| 0 <= i < j < r@.len() implies c@[#[trigger] r@[i] as int].path@
            != c@[#[trigger] r@[j] as int].path@ by {
            if pos[i] < pos[j] {
                assert(c@[best@[pos[i]] as int].path@ != c@[best@[pos[j]] as int].path@);
            } else {
                assert(c@[best@[pos[j]] as int].path@ != c@[best@[pos[i]] as int].path@);
            }
        }
        assert forall|k: int|
            best_of_file(c@, k) && #[trigger] file_left_out(c@, r@, k)
            implies r@.len() == max_results && forall|i: int|
                0 <= i < r@.len() ==> c@[k].score <= c@[#[trigger] r@[i] as int].score by {
            assert(file_kept(c@, best@, k));
            let t = choose|t: int| 0 <= t < best@.len() && c@[#[trigger] best@[t] as int].path@ == c@[k].path@;
            if used@[t] {
                let i = choose|i: int| 0 <= i < pos.len() && pos[i] == t;
                assert(c@[r@[i] as int].path@ == c@[k].path@);
            }
            assert(!used@[t]);
            assert(best_of_file(c@, best@[t] as int));
            lemma_best_of_file_unique(c@, k, best@[t] as int);
        }
    }
    r
}

} // verus!
