use lattice_rust::hashing::{compute_hash, hash_sum, scalar_from_digest};
use lattice_rust::prime::{is_prime, next_prime};
use lattice_rust::program::{
    add_player, commit, initialize, reveal_point, reveal_with_digest, CustomError, GamePhase,
    ProgramState,
};
use lattice_rust::simulate::simulate_lattice_mpc;
use lattice_rust::winner::{
    calculate_distance, compute, compute_with_scalar, player_distance, sum_coordinates,
    LatticePoint, Player,
};
use sha2::{Digest, Sha256};

fn fresh_state() -> ProgramState {
    let mut state = ProgramState { players: Vec::new(), phase: GamePhase::Reveal, last_commit_block: 42 };
    initialize(&mut state);
    state
}

fn point(i: u64) -> (u64, u64, u64) {
    (1 + (i * 37) % 100, 1 + (i * 53 + 11) % 100, 1 + (i * 71 + 29) % 100)
}

#[test]
fn primality_of_small_numbers() {
    for n in [0u64, 1, 4, 6, 9, 15, 25, 35, 49, 91, 121, 7917] {
        assert!(!is_prime(n), "{} is not prime", n);
    }
    for n in [2u64, 3, 5, 7, 11, 13, 29, 97, 7919, 1_000_000_007] {
        assert!(is_prime(n), "{} is prime", n);
    }
}

#[test]
fn next_prime_values() {
    assert_eq!(next_prime(0), Some(2));
    assert_eq!(next_prime(1), Some(2));
    assert_eq!(next_prime(2), Some(3));
    assert_eq!(next_prime(13), Some(17));
    assert_eq!(next_prime(24), Some(29));
    assert_eq!(next_prime(7907), Some(7919));
    assert_eq!(next_prime(u64::MAX), None);
}

#[test]
fn next_prime_is_the_smallest_prime_above() {
    for n in 0u64..500 {
        let p = next_prime(n).unwrap();
        assert!(p > n && is_prime(p));
        for k in (n + 1)..p {
            assert!(!is_prime(k));
        }
    }
}

#[test]
fn distance_is_absolute_difference() {
    assert_eq!(calculate_distance(3, 10), 7);
    assert_eq!(calculate_distance(10, 3), 7);
    assert_eq!(calculate_distance(5, 5), 0);
    assert_eq!(calculate_distance(0, u64::MAX), u64::MAX);
    let p = Player { id: 0, x: 0, y: 0, z: 0 };
    let r = LatticePoint { x: u64::MAX, y: u64::MAX, z: u64::MAX };
    assert_eq!(player_distance(&p, &r), 3 * (u64::MAX as u128));
}

#[test]
fn commitment_is_sha256_of_little_endian_coordinates() {
    let mut hasher = Sha256::new();
    hasher.update(1u64.to_le_bytes());
    hasher.update(2u64.to_le_bytes());
    hasher.update(300u64.to_le_bytes());
    let expected: [u8; 32] = hasher.finalize().into();
    let got = compute_hash(1, 2, 300);
    assert_eq!(got, expected);
    assert_ne!(compute_hash(1, 2, 300), compute_hash(300, 2, 1));
}

#[test]
fn scalar_reads_first_eight_bytes_big_endian() {
    let mut d = [0u8; 32];
    for (i, b) in d.iter_mut().enumerate() {
        *b = (i + 1) as u8;
    }
    assert_eq!(scalar_from_digest(&d), 0x0102_0304_0506_0708);
    let mut one = [0xffu8; 32];
    one[..8].copy_from_slice(&[0, 0, 0, 0, 0, 0, 0, 1]);
    assert_eq!(scalar_from_digest(&one), 1);
}

#[test]
fn hash_sum_matches_sha256_of_big_endian_sum() {
    for sum in [0u64, 1, 1234, u64::MAX] {
        let digest = Sha256::digest(sum.to_be_bytes());
        let mut first = [0u8; 8];
        first.copy_from_slice(&digest[0..8]);
        assert_eq!(hash_sum(sum), u64::from_be_bytes(first));
    }
}

#[test]
fn coordinate_sum_wraps() {
    let players = vec![
        Player { id: 0, x: u64::MAX, y: 2, z: 0 },
        Player { id: 1, x: 5, y: 0, z: 0 },
    ];
    assert_eq!(sum_coordinates(&players), 6);
}

#[test]
fn composite_and_reference_with_given_scalar() {
    let players = vec![Player { id: 0, x: 1, y: 1, z: 1 }, Player { id: 1, x: 11, y: 21, z: 31 }];
    let o = compute_with_scalar(&players, 25).unwrap();
    assert_eq!(o.composite, LatticePoint { x: 6, y: 6, z: 26 });
    assert_eq!(o.reference, LatticePoint { x: 7, y: 7, z: 29 });
    assert_eq!((o.winner_id, o.winner_distance), (1, 20));
    assert_eq!((o.loser_id, o.loser_distance), (0, 40));
}

#[test]
fn tie_goes_to_the_earliest_participant() {
    let players = vec![Player { id: 0, x: 1, y: 1, z: 1 }, Player { id: 1, x: 11, y: 21, z: 31 }];
    let o = compute_with_scalar(&players, 7).unwrap();
    assert_eq!(o.reference, LatticePoint { x: 11, y: 11, z: 11 });
    assert_eq!((o.winner_id, o.winner_distance), (0, 30));
    assert_eq!((o.loser_id, o.loser_distance), (0, 30));
}

#[test]
fn identical_points_share_distance_and_earliest_takes_both_roles() {
    let players = vec![
        Player { id: 0, x: 5, y: 5, z: 5 },
        Player { id: 1, x: 5, y: 5, z: 5 },
    ];
    let o = compute(&players).unwrap();
    assert_eq!(o.composite, LatticePoint { x: 5, y: 5, z: 5 });
    assert_eq!(o.reference, LatticePoint { x: 7, y: 7, z: 7 });
    let r = o.reference;
    assert_eq!(player_distance(&players[0], &r), player_distance(&players[1], &r));
    assert_eq!((o.winner_id, o.winner_distance), (0, 6));
    assert_eq!((o.loser_id, o.loser_distance), (0, 6));
}

#[test]
fn no_prime_above_the_composite() {
    let players = vec![
        Player { id: 0, x: u64::MAX, y: 1, z: 1 },
        Player { id: 1, x: u64::MAX, y: 2, z: 2 },
    ];
    assert_eq!(compute_with_scalar(&players, 3), None);
}

#[test]
fn direct_round_is_reproducible() {
    let mut players = Vec::new();
    for i in 0..10u64 {
        let (x, y, z) = point(i);
        players.push(Player { id: i as u8, x, y, z });
    }
    let first = compute(&players).unwrap();
    let second = compute(&players).unwrap();
    assert_eq!(first, second);
    let scalar = hash_sum(sum_coordinates(&players));
    let min_x = players.iter().map(|p| p.x).min().unwrap();
    let max_x = players.iter().map(|p| p.x).max().unwrap();
    assert_eq!(first.composite.x, min_x + scalar % (max_x - min_x));
    assert_eq!(Some(first.reference.x), next_prime(first.composite.x));
    assert_eq!(compute_with_scalar(&players, scalar), Some(first));
    let mut best = u128::MAX;
    let mut worst = 0u128;
    for p in &players {
        let d = player_distance(p, &first.reference);
        best = best.min(d);
        worst = worst.max(d);
    }
    assert_eq!(first.winner_distance, best);
    assert_eq!(first.loser_distance, worst);
}

#[test]
fn initialize_resets_the_state() {
    let state = fresh_state();
    assert!(state.players.is_empty());
    assert_eq!(state.phase, GamePhase::Commit);
    assert_eq!(state.last_commit_block, 0);
}

fn committed_round(first_height: u64) -> ProgramState {
    let mut state = fresh_state();
    for i in 0..10u64 {
        let (x, y, z) = point(i);
        assert_eq!(commit(&mut state, compute_hash(x, y, z), first_height + i), Ok(()));
    }
    state
}

#[test]
fn tenth_commitment_opens_reveal_phase() {
    let mut state = fresh_state();
    for i in 0..9u64 {
        commit(&mut state, compute_hash(i, i, i), 10 + i).unwrap();
        assert_eq!(state.phase, GamePhase::Commit);
    }
    commit(&mut state, compute_hash(9, 9, 9), 19).unwrap();
    assert_eq!(state.phase, GamePhase::Reveal);
    assert_eq!(state.players.len(), 10);
    assert_eq!(state.last_commit_block, 19);
    assert_eq!(state.players[3].id, 3);
    assert_eq!(state.players[3].hash, Some(compute_hash(3, 3, 3)));
    assert_eq!(state.players[3].x, None);
}

#[test]
fn reveal_waits_for_the_delay() {
    let mut state = committed_round(100);
    let last = state.last_commit_block;
    assert_eq!(last, 109);
    let (x, y, z) = point(0);
    assert_eq!(reveal_point(&mut state, 0, x, y, z, last + 5), Err(CustomError::BlocksNotPassed));
    assert_eq!(state.players[0].x, None);
    assert_eq!(reveal_point(&mut state, 0, x, y, z, last + 6), Ok(None));
    assert_eq!(state.players[0].x, Some(x));
    assert_eq!(state.players[0].z, Some(z));
}

#[test]
fn reveal_refusals() {
    let mut state = fresh_state();
    assert_eq!(reveal_point(&mut state, 0, 1, 2, 3, 1000), Err(CustomError::InvalidPhase));
    let mut state = committed_round(0);
    let (x, y, z) = point(4);
    assert_eq!(reveal_point(&mut state, 4, x + 1, y, z, 1000), Err(CustomError::HashMismatch));
    assert_eq!(reveal_point(&mut state, 4, y, x, z, 1000), Err(CustomError::HashMismatch));
    assert_eq!(reveal_point(&mut state, 10, x, y, z, 1000), Err(CustomError::PlayerNotFound));
    assert_eq!(state.players[4].x, None);
    assert_eq!(reveal_point(&mut state, 4, x, y, z, 1000), Ok(None));
}

#[test]
fn reveal_with_digest_compares_the_given_digest() {
    let mut state = committed_round(0);
    let (x, y, z) = point(2);
    let wrong = [7u8; 32];
    assert_eq!(reveal_with_digest(&mut state, 2, x, y, z, 50, &wrong), Err(CustomError::HashMismatch));
    let right = compute_hash(x, y, z);
    assert_eq!(reveal_with_digest(&mut state, 2, x, y, z, 50, &right), Ok(None));
    assert_eq!(state.players[2].y, Some(y));
}

#[test]
fn last_reveal_scores_and_resets() {
    let mut state = committed_round(0);
    let mut expected_players = Vec::new();
    for i in 0..10u64 {
        let (x, y, z) = point(i);
        expected_players.push(Player { id: i as u8, x, y, z });
    }
    let expected = compute(&expected_players).unwrap();
    for i in (1..10u64).rev() {
        let (x, y, z) = point(i);
        assert_eq!(reveal_point(&mut state, i as u8, x, y, z, 20), Ok(None));
    }
    assert_eq!(state.phase, GamePhase::Reveal);
    let (x, y, z) = point(0);
    let outcome = reveal_point(&mut state, 0, x, y, z, 20).unwrap().unwrap();
    assert_eq!(outcome, expected);
    assert!(state.players.is_empty());
    assert_eq!(state.phase, GamePhase::Commit);
    assert_eq!(commit(&mut state, compute_hash(1, 1, 1), 30), Ok(()));
}

#[test]
fn direct_points_score_without_reset() {
    let mut state = fresh_state();
    for i in 0..9u64 {
        assert_eq!(add_player(&mut state, 5, 5, 5), Ok(None));
        assert_eq!(state.players[i as usize].id, i as u8);
    }
    let outcome = add_player(&mut state, 5, 5, 5).unwrap().unwrap();
    assert_eq!(outcome.composite, LatticePoint { x: 5, y: 5, z: 5 });
    assert_eq!(outcome.reference, LatticePoint { x: 7, y: 7, z: 7 });
    assert_eq!((outcome.winner_id, outcome.winner_distance), (0, 6));
    assert_eq!((outcome.loser_id, outcome.loser_distance), (0, 6));
    assert_eq!(state.players.len(), 10);
    assert_eq!(state.phase, GamePhase::Commit);
}

#[test]
fn direct_point_refused_in_reveal_phase() {
    let mut state = committed_round(0);
    assert_eq!(add_player(&mut state, 1, 2, 3), Err(CustomError::InvalidPhase));
    assert_eq!(commit(&mut state, [0u8; 32], 5), Err(CustomError::InvalidPhase));
    assert_eq!(state.players.len(), 10);
}

#[test]
fn direct_round_without_prime_is_refused() {
    let mut state = fresh_state();
    for _ in 0..9 {
        add_player(&mut state, u64::MAX, 1, 1).unwrap();
    }
    assert_eq!(add_player(&mut state, u64::MAX, 2, 2), Err(CustomError::PrimeOutOfRange));
    assert_eq!(state.players.len(), 9);
}

#[test]
fn batch_needs_exactly_twenty_five_points() {
    let xs: Vec<u64> = (1..=25).collect();
    let short: Vec<u64> = (1..=24).collect();
    assert_eq!(
        simulate_lattice_mpc(short.clone(), xs.clone(), xs.clone()),
        Err(CustomError::InvalidPlayerCount)
    );
    assert_eq!(
        simulate_lattice_mpc(xs.clone(), xs.clone(), short),
        Err(CustomError::InvalidPlayerCount)
    );
}

#[test]
fn batch_round_matches_the_winner_computation() {
    let xs: Vec<u64> = (0..25u64).map(|i| 1 + (i * 37) % 100).collect();
    let ys: Vec<u64> = (0..25u64).map(|i| 1 + (i * 53 + 11) % 100).collect();
    let zs: Vec<u64> = (0..25u64).map(|i| 1 + (i * 71 + 29) % 100).collect();
    let players: Vec<Player> =
        (0..25).map(|i| Player { id: i as u8, x: xs[i], y: ys[i], z: zs[i] }).collect();
    let outcome = simulate_lattice_mpc(xs.clone(), ys.clone(), zs.clone()).unwrap();
    assert_eq!(Some(outcome), compute(&players));
    assert_eq!(simulate_lattice_mpc(xs, ys, zs), Ok(outcome));
}
