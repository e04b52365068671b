//! A whole round at once: every participant's point is given directly.
use vstd::prelude::*;
use crate::program::CustomError;
use crate::winner::{compute, is_outcome, reference_fits, round_scalar, Player, RoundOutcome};

verus! {

/// The number of participants in a batch round.
pub const BATCH_PLAYERS: usize = 25;

/// The participants of a batch round: participant `i` holds the `i`-th coordinate of each axis.
pub open spec fn batch_players(xs: Seq<u64>, ys: Seq<u64>, zs: Seq<u64>) -> Seq<Player> {
    Seq::new(BATCH_PLAYERS as nat, |i: int| Player { id: i as u8, x: xs[i], y: ys[i], z: zs[i] })
}

/// Scores a round of exactly `BATCH_PLAYERS` participants whose coordinates are given axis
/// by axis.
pub fn simulate_lattice_mpc(x_points: Vec<u64>, y_points: Vec<u64>, z_points: Vec<u64>) -> (r:
    Result<RoundOutcome, CustomError>)
    ensures
        ({
            let s = batch_players(x_points@, y_points@, z_points@);
            if x_points@.len() != BATCH_PLAYERS || y_points@.len() != BATCH_PLAYERS
                || z_points@.len() != BATCH_PLAYERS {
                r == Err::<RoundOutcome, CustomError>(CustomError::InvalidPlayerCount)
            } else if !reference_fits(s, round_scalar(s)) {
                r == Err::<RoundOutcome, CustomError>(CustomError::PrimeOutOfRange)
            } else {
                match r {
                    Ok(o) => is_outcome(s, o),
                    Err(_) => false,
                }
            }
        }),
{
    if x_points.len() != BATCH_PLAYERS || y_points.len() != BATCH_PLAYERS || z_points.len()
        != BATCH_PLAYERS {
        return Err(CustomError::InvalidPlayerCount);
    }
    let mut players: Vec<Player> = Vec::new();
    let mut i: usize = 0;
    while i < BATCH_PLAYERS
        invariant
            i <= BATCH_PLAYERS,
            x_points@.len() == BATCH_PLAYERS,
            y_points@.len() == BATCH_PLAYERS,
            z_points@.len() == BATCH_PLAYERS,
            players@ == batch_players(x_points@, y_points@, z_points@).take(i as int),
        decreases BATCH_PLAYERS - i,
    {
        players.push(Player { id: i as u8, x: x_points[i], y: y_points[i], z: z_points[i] });
        i = i + 1;
    }
    assert(players@ == batch_players(x_points@, y_points@, z_points@));
    match compute(&players) {
        Some(o) => Ok(o),
        None => Err(CustomError::PrimeOutOfRange),
    }
}

} // verus!
