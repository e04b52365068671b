//! The round's state machine: commitments are collected, revealed after a delay, and
//! checked; the last reveal scores the round and starts the next one.
use vstd::prelude::*;
use crate::hashing::{commit_hash, compute_hash};
use crate::winner::{self, compute, is_outcome, reference_fits, round_scalar, RoundOutcome};

pub use crate::winner::LatticePoint;

verus! {

/// The number of participants in a round.
pub const MAX_PLAYERS: usize = 10;

/// The number of blocks that must pass after the last commitment before a reveal.
pub const REVEAL_DELAY: u64 = 6;

/// Which operations the round accepts.
#[derive(Clone, Copy, Debug, PartialEq, Eq, Structural)]
pub enum GamePhase {
    Commit,
    Reveal,
}

/// Why an operation was refused. A refused operation changes nothing.
#[derive(Clone, Copy, Debug, PartialEq, Eq, Structural)]
pub enum CustomError {
    /// A batch did not hold the required number of points.
    InvalidPlayerCount,
    /// The operation is not accepted in the current phase.
    InvalidPhase,
    /// The revealed point does not hash to the stored commitment.
    HashMismatch,
    /// No participant with that id holds a commitment.
    PlayerNotFound,
    /// Too few blocks have passed since the last commitment.
    BlocksNotPassed,
    /// Some axis of the composite point has no prime above it within `u64`, so the
    /// round cannot be scored.
    PrimeOutOfRange,
}

/// A participant: a commitment, a point, or both once the point is revealed.
#[derive(Clone, Copy, Debug)]
pub struct Player {
    pub id: u8,
    pub x: Option<u64>,
    pub y: Option<u64>,
    pub z: Option<u64>,
    pub hash: Option<[u8; 32]>,
}

/// The state of the current round.
#[derive(Debug)]
pub struct ProgramState {
    pub players: Vec<Player>,
    pub phase: GamePhase,
    pub last_commit_block: u64,
}

pub open spec fn is_revealed(p: Player) -> bool {
    p.x is Some && p.y is Some && p.z is Some
}

/// The known point of a participant.
pub open spec fn entry_of(p: Player) -> winner::Player {
    winner::Player { id: p.id, x: p.x->0, y: p.y->0, z: p.z->0 }
}

/// The known points of the participants, in join order.
pub open spec fn revealed_points(s: Seq<Player>) -> Seq<winner::Player>
    decreases s.len(),
{
    if s.len() == 0 {
        Seq::empty()
    } else if is_revealed(s.last()) {
        revealed_points(s.drop_last()).push(entry_of(s.last()))
    } else {
        revealed_points(s.drop_last())
    }
}

pub open spec fn all_revealed(s: Seq<Player>) -> bool {
    forall|i: int| 0 <= i < s.len() ==> is_revealed(#[trigger] s[i])
}

/// A participant holds all three coordinates or none, holds a commitment or a point, and
/// a revealed point matches its commitment.
pub open spec fn player_wf(p: Player) -> bool {
    &&& p.x is Some == p.y is Some
    &&& p.y is Some == p.z is Some
    &&& p.hash is Some || p.x is Some
    &&& (p.hash is Some && p.x is Some) ==> p.hash->0@ == commit_hash(p.x->0, p.y->0, p.z->0)
}

/// Two states hold the same participants, phase and last commitment height.
pub open spec fn same_state(a: ProgramState, b: ProgramState) -> bool {
    &&& a.players@ == b.players@
    &&& a.phase == b.phase
    &&& a.last_commit_block == b.last_commit_block
}

/// The round may score once the delay after the last commitment has passed.
pub open spec fn delay_passed(last_commit_block: u64, height: u64) -> bool {
    height >= last_commit_block + REVEAL_DELAY
}

pub open spec fn has_commitment(s: Seq<Player>, id: u8) -> bool {
    id < s.len() && s[id as int].hash is Some
}

/// The participants with the point of participant `id` filled in.
pub open spec fn with_point(s: Seq<Player>, id: u8, x: u64, y: u64, z: u64) -> Seq<Player> {
    s.update(id as int, Player { x: Some(x), y: Some(y), z: Some(z), ..s[id as int] })
}

impl ProgramState {
    /// At most a round's worth of participants, each id its join position, each
    /// participant consistent, and the reveal phase only with a full round.
    pub open spec fn wf(&self) -> bool {
        &&& self.players@.len() <= MAX_PLAYERS
        &&& forall|i: int|
            0 <= i < self.players@.len() ==> (#[trigger] self.players@[i]).id == i && player_wf(
                self.players@[i],
            )
        &&& self.phase == GamePhase::Reveal ==> self.players@.len() == MAX_PLAYERS
    }
}

/// What a reveal of `(x, y, z)` for participant `id` at `height` does to `pre`, given the
/// digest of the point: checks in order of phase, delay, commitment and digest, then
/// either records the point or, when it was the last one, scores and resets the round.
pub open spec fn reveal_spec(
    pre: ProgramState,
    post: ProgramState,
    id: u8,
    x: u64,
    y: u64,
    z: u64,
    height: u64,
    digest: Seq<u8>,
    r: Result<Option<RoundOutcome>, CustomError>,
) -> bool {
    if pre.phase != GamePhase::Reveal {
        r == Err::<Option<RoundOutcome>, CustomError>(CustomError::InvalidPhase) && same_state(post, pre)
    } else if !delay_passed(pre.last_commit_block, height) {
        r == Err::<Option<RoundOutcome>, CustomError>(CustomError::BlocksNotPassed) && same_state(post, pre)
    } else if !has_commitment(pre.players@, id) {
        r == Err::<Option<RoundOutcome>, CustomError>(CustomError::PlayerNotFound) && same_state(post, pre)
    } else if pre.players@[id as int].hash->0@ != digest {
        r == Err::<Option<RoundOutcome>, CustomError>(CustomError::HashMismatch) && same_state(post, pre)
    } else {
        let s = with_point(pre.players@, id, x, y, z);
        let pts = revealed_points(s);
        if !all_revealed(s) {
            &&& r == Ok::<Option<RoundOutcome>, CustomError>(None)
            &&& post.players@ == s
            &&& post.phase == pre.phase
            &&& post.last_commit_block == pre.last_commit_block
        } else if !reference_fits(pts, round_scalar(pts)) {
            r == Err::<Option<RoundOutcome>, CustomError>(CustomError::PrimeOutOfRange) && same_state(post, pre)
        } else {
            &&& match r {
                Ok(Some(o)) => is_outcome(pts, o),
                _ => false,
            }
            &&& post.players@.len() == 0
            &&& post.phase == GamePhase::Commit
            &&& post.last_commit_block == pre.last_commit_block
        }
    }
}

/// A reveal of the very point that was committed passes the digest check: it is
/// refused for no reason but the phase, the delay, a missing commitment, or a round
/// that cannot be scored. A point whose digest differs from the commitment is refused
/// with `HashMismatch` once the phase, the delay and the commitment are in order.
pub proof fn lemma_reveal_checks_commitment(
    pre: ProgramState,
    post: ProgramState,
    id: u8,
    x: u64,
    y: u64,
    z: u64,
    height: u64,
    r: Result<Option<RoundOutcome>, CustomError>,
)
    requires
        reveal_spec(pre, post, id, x, y, z, height, commit_hash(x, y, z), r),
        pre.phase == GamePhase::Reveal,
        delay_passed(pre.last_commit_block, height),
        has_commitment(pre.players@, id),
    ensures
        pre.players@[id as int].hash->0@ == commit_hash(x, y, z) ==> r is Ok || r
            == Err::<Option<RoundOutcome>, CustomError>(CustomError::PrimeOutOfRange),
        pre.players@[id as int].hash->0@ != commit_hash(x, y, z) ==> r == Err::<
            Option<RoundOutcome>,
            CustomError,
        >(CustomError::HashMismatch),
{
}

/// In the reveal phase a reveal below `last_commit_block + REVEAL_DELAY` is refused with
/// `BlocksNotPassed`, and one at that height or later is never refused for the delay.
pub proof fn lemma_reveal_delay_boundary(
    pre: ProgramState,
    post: ProgramState,
    id: u8,
    x: u64,
    y: u64,
    z: u64,
    height: u64,
    digest: Seq<u8>,
    r: Result<Option<RoundOutcome>, CustomError>,
)
    requires
        reveal_spec(pre, post, id, x, y, z, height, digest, r),
        pre.phase == GamePhase::Reveal,
    ensures
        height < pre.last_commit_block + REVEAL_DELAY ==> r == Err::<
            Option<RoundOutcome>,
            CustomError,
        >(CustomError::BlocksNotPassed),
        height >= pre.last_commit_block + REVEAL_DELAY ==> r != Err::<
            Option<RoundOutcome>,
            CustomError,
        >(CustomError::BlocksNotPassed),
{
}

/// A reveal that scores the round leaves no participants and the commit phase, whatever
/// the points were.
pub proof fn lemma_scored_round_resets(
    pre: ProgramState,
    post: ProgramState,
    id: u8,
    x: u64,
    y: u64,
    z: u64,
    height: u64,
    digest: Seq<u8>,
    r: Result<Option<RoundOutcome>, CustomError>,
)
    requires
        reveal_spec(pre, post, id, x, y, z, height, digest, r),
        r matches Ok(Some(_)),
    ensures
        post.players@.len() == 0,
        post.phase == GamePhase::Commit,
{
}

/// Starts the first round: no participants, the commit phase, no commitment yet.
pub fn initialize(state: &mut ProgramState)
    ensures
        final(state).players@.len() == 0,
        final(state).phase == GamePhase::Commit,
        final(state).last_commit_block == 0,
        final(state).wf(),
{
    state.players = Vec::new();
    state.phase = GamePhase::Commit;
    state.last_commit_block = 0;
}

/// Records a commitment at `current_height`; the round's last commitment opens the
/// reveal phase.
pub fn commit(state: &mut ProgramState, hash: [u8; 32], current_height: u64) -> (r: Result<
    (),
    CustomError,
>)
    requires
        old(state).wf(),
        old(state).players@.len() < MAX_PLAYERS,
    ensures
        final(state).wf(),
        old(state).phase != GamePhase::Commit ==> r == Err::<(), CustomError>(CustomError::InvalidPhase)
            && same_state(*final(state), *old(state)),
        old(state).phase == GamePhase::Commit ==> {
            &&& r == Ok::<(), CustomError>(())
            &&& final(state).players@ == old(state).players@.push(
                Player {
                    id: old(state).players@.len() as u8,
                    x: None,
                    y: None,
                    z: None,
                    hash: Some(hash),
                },
            )
            &&& final(state).last_commit_block == current_height
            &&& final(state).phase == if final(state).players@.len() == MAX_PLAYERS {
                GamePhase::Reveal
            } else {
                GamePhase::Commit
            }
        },
{
    if state.phase != GamePhase::Commit {
        return Err(CustomError::InvalidPhase);
    }
    let player_id = state.players.len() as u8;
    state.players.push(Player { id: player_id, x: None, y: None, z: None, hash: Some(hash) });
    state.last_commit_block = current_height;
    if state.players.len() == MAX_PLAYERS {
        state.phase = GamePhase::Reveal;
    }
    Ok(())
}

/// The points of the participants that hold one, in join order.
fn collect_points(players: &Vec<Player>) -> (pts: Vec<winner::Player>)
    ensures
        pts@ == revealed_points(players@),
{
    let mut pts: Vec<winner::Player> = Vec::new();
    let mut i: usize = 0;
    while i < players.len()
        invariant
            i <= players@.len(),
            pts@ == revealed_points(players@.take(i as int)),
        decreases players@.len() - i,
    {
        let p = players[i];
        proof {
            assert(players@.take(i + 1).drop_last() == players@.take(i as int));
        }
        match (p.x, p.y, p.z) {
            (Some(x), Some(y), Some(z)) => {
                pts.push(winner::Player { id: p.id, x, y, z });
            },
            _ => {},
        }
        i = i + 1;
    }
    assert(players@.take(players@.len() as int) == players@);
    pts
}

/// Adds a participant with a known point, bypassing commitment; the round's last
/// participant scores the round, which then stays as it is.
pub fn add_player(state: &mut ProgramState, x: u64, y: u64, z: u64) -> (r: Result<
    Option<RoundOutcome>,
    CustomError,
>)
    requires
        old(state).wf(),
        old(state).players@.len() < MAX_PLAYERS,
    ensures
        final(state).wf(),
        ({
            let s = old(state).players@.push(
                Player {
                    id: old(state).players@.len() as u8,
                    x: Some(x),
                    y: Some(y),
                    z: Some(z),
                    hash: None,
                },
            );
            let pts = revealed_points(s);
            if old(state).phase != GamePhase::Commit {
                r == Err::<Option<RoundOutcome>, CustomError>(CustomError::InvalidPhase)
                    && same_state(*final(state), *old(state))
            } else if s.len() < MAX_PLAYERS {
                &&& r == Ok::<Option<RoundOutcome>, CustomError>(None)
                &&& final(state).players@ == s
                &&& final(state).phase == old(state).phase
                &&& final(state).last_commit_block == old(state).last_commit_block
            } else if !reference_fits(pts, round_scalar(pts)) {
                r == Err::<Option<RoundOutcome>, CustomError>(CustomError::PrimeOutOfRange)
                    && same_state(*final(state), *old(state))
            } else {
                &&& match r {
                    Ok(Some(o)) => is_outcome(pts, o),
                    _ => false,
                }
                &&& final(state).players@ == s
                &&& final(state).phase == old(state).phase
                &&& final(state).last_commit_block == old(state).last_commit_block
            }
        }),
{
    if state.phase != GamePhase::Commit {
        return Err(CustomError::InvalidPhase);
    }
    let player_id = state.players.len() as u8;
    let p = Player { id: player_id, x: Some(x), y: Some(y), z: Some(z), hash: None };
    if state.players.len() + 1 < MAX_PLAYERS {
        state.players.push(p);
        return Ok(None);
    }
    let mut all = state.players.clone();
    all.push(p);
    assert(all@ == old(state).players@.push(p));
    let pts = collect_points(&all);
    let outcome = compute(&pts);
    match outcome {
        None => Err(CustomError::PrimeOutOfRange),
        Some(o) => {
            state.players.push(p);
            Ok(Some(o))
        },
    }
}

/// Whether two digests hold the same bytes.
fn digests_equal(a: &[u8; 32], b: &[u8; 32]) -> (r: bool)
    ensures
        r == (a@ == b@),
{
    let mut i: usize = 0;
    while i < 32
        invariant
            i <= 32,
            a@.len() == 32,
            b@.len() == 32,
            forall|j: int| 0 <= j < i ==> a@[j] == b@[j],
        decreases 32 - i,
    {
        if a[i] != b[i] {
            return false;
        }
        i = i + 1;
    }
    assert(a@ =~= b@);
    true
}

/// Reveals the point of participant `player_id` at `current_height`, given `digest`, the
/// digest of the point: see `reveal_spec`.
pub fn reveal_with_digest(
    state: &mut ProgramState,
    player_id: u8,
    x: u64,
    y: u64,
    z: u64,
    current_height: u64,
    digest: &[u8; 32],
) -> (r: Result<Option<RoundOutcome>, CustomError>)
    requires
        old(state).wf(),
        old(state).phase == GamePhase::Reveal && has_commitment(old(state).players@, player_id)
            && old(state).players@[player_id as int].hash->0@ == digest@ ==> digest@ == commit_hash(
            x,
            y,
            z,
        ),
    ensures
        final(state).wf(),
        reveal_spec(*old(state), *final(state), player_id, x, y, z, current_height, digest@, r),
{
    if state.phase != GamePhase::Reveal {
        return Err(CustomError::InvalidPhase);
    }
    if current_height < REVEAL_DELAY || current_height - REVEAL_DELAY < state.last_commit_block {
        return Err(CustomError::BlocksNotPassed);
    }
    let idx = player_id as usize;
    if idx >= state.players.len() {
        return Err(CustomError::PlayerNotFound);
    }
    let old_player = state.players[idx];
    let stored = match old_player.hash {
        None => {
            return Err(CustomError::PlayerNotFound);
        },
        Some(h) => h,
    };
    if !digests_equal(&stored, digest) {
        return Err(CustomError::HashMismatch);
    }
    let p = Player { x: Some(x), y: Some(y), z: Some(z), ..old_player };
    let mut updated = state.players.clone();
    updated[idx] = p;
    assert(updated@ == with_point(old(state).players@, player_id, x, y, z));
    let mut complete = true;
    let mut i: usize = 0;
    while i < updated.len()
        invariant
            i <= updated@.len(),
            complete == forall|j: int| 0 <= j < i ==> is_revealed(#[trigger] updated@[j]),
        decreases updated@.len() - i,
    {
        let q = updated[i];
        if !(q.x.is_some() && q.y.is_some() && q.z.is_some()) {
            complete = false;
        }
        i = i + 1;
    }
    if !complete {
        state.players = updated;
        return Ok(None);
    }
    let pts = collect_points(&updated);
    proof {
        lemma_all_revealed_points_len(updated@);
    }
    match compute(&pts) {
        None => Err(CustomError::PrimeOutOfRange),
        Some(o) => {
            state.players = Vec::new();
            state.phase = GamePhase::Commit;
            Ok(Some(o))
        },
    }
}

proof fn lemma_all_revealed_points_len(s: Seq<Player>)
    requires
        all_revealed(s),
    ensures
        revealed_points(s).len() == s.len(),
    decreases s.len(),
{
    if s.len() > 0 {
        assert(all_revealed(s.drop_last())) by {
            assert forall|i: int| 0 <= i < s.drop_last().len() implies is_revealed(
                #[trigger] s.drop_last()[i],
            ) by {
                assert(s.drop_last()[i] == s[i]);
            }
        }
        lemma_all_revealed_points_len(s.drop_last());
        assert(is_revealed(s[s.len() - 1]));
    }
}

/// Reveals the point of participant `player_id` at `current_height`: its commitment must
/// be the SHA-256 digest of the point (see `compute_hash`). The last reveal scores the
/// round and starts the next one.
pub fn reveal_point(state: &mut ProgramState, player_id: u8, x: u64, y: u64, z: u64, current_height: u64) -> (r:
    Result<Option<RoundOutcome>, CustomError>)
    requires
        old(state).wf(),
    ensures
        final(state).wf(),
        reveal_spec(
            *old(state),
            *final(state),
            player_id,
            x,
            y,
            z,
            current_height,
            commit_hash(x, y, z),
            r,
        ),
{
    let digest = compute_hash(x, y, z);
    reveal_with_digest(state, player_id, x, y, z, current_height, &digest)
}

} // verus!
