use vstd::prelude::*;
use crate::catalog::{GameAxiom, axiom_code, axiom_holds, axiom_of_code, lemma_code_bijection};
use crate::messaging::{
    ClientReadyPayload, DeserializationError, MessageType, RoundInitPayload, SelectionMadePayload,
    decode_spec, encode_spec, try_parse_message,
};
use vstd::arithmetic::div_mod::{lemma_mod_self_0, lemma_small_mod};

verus! {

/// A player's identifier, assigned by the connection layer.
pub type PlayerId = u16;

/// Default number of players needed before a round can start.
pub const DEFAULT_MIN_PLAYERS: usize = 2;

/// Default number of rounds in a game.
pub const DEFAULT_ROUNDS: u32 = 3;

/// Points for a pick whose predicate holds of the hidden number.
pub const POINTS_PER_HIT: u32 = 1;

/// Number of predicates offered in a round.
pub const OFFERED_PER_ROUND: usize = 6;

/// Who is in the waiting room, in join order, and who of them is ready.
pub struct WaitingRoomState {
    pub in_room: Vec<PlayerId>,
    pub ready: Vec<PlayerId>,
}

/// The phases of a session.
#[derive(Clone, Copy, Debug, PartialEq, Eq, Structural)]
pub enum Phase {
    WaitingRoom,
    RoundSetup,
    TurnInProgress,
    Scoring,
    Complete,
}

/// Why a session refused a message or a roster change.
#[derive(Clone, Copy, Debug, PartialEq, Eq, Structural)]
pub enum GameError {
    /// The message does not apply in the current phase.
    IllegalTransition,
    /// The pick is not one of the round's offered predicates.
    InvalidSelection,
    /// The sender is not in the roster.
    UnknownPlayer,
}

/// Why an inbound buffer was not applied.
#[derive(Clone, Copy, Debug, PartialEq, Eq, Structural)]
pub enum InboundError {
    /// The buffer is not a message.
    Decode(DeserializationError),
    /// The session refused the message.
    Game(GameError),
}

/// One member of the roster.
#[derive(Clone, Copy, Debug, PartialEq, Eq, Structural)]
pub struct Player {
    pub id: PlayerId,
    pub ready: bool,
    pub score: u32,
    pub selection: Option<GameAxiom>,
}

/// The authoritative state of one game room.
pub struct GameState {
    pub phase: Phase,
    /// The roster, in join order.
    pub players: Vec<Player>,
    /// The predicates offered in the current round.
    pub offered: Vec<GameAxiom>,
    /// The number the round's picks are scored against.
    pub hidden: u8,
    /// Index into `players` of the player whose turn it is.
    pub turn: usize,
    pub rounds_played: u32,
    pub max_rounds: u32,
    pub min_players: usize,
}

pub open spec fn has_player(s: Seq<Player>, id: PlayerId) -> bool {
    exists|i: int| 0 <= i < s.len() && #[trigger] s[i].id == id
}

pub open spec fn ids_unique(s: Seq<Player>) -> bool {
    forall|i: int, j: int| 0 <= i < j < s.len() ==> #[trigger] s[i].id != #[trigger] s[j].id
}

pub open spec fn all_ready(s: Seq<Player>) -> bool {
    forall|i: int| 0 <= i < s.len() ==> #[trigger] s[i].ready
}

pub open spec fn all_selected(s: Seq<Player>) -> bool {
    forall|i: int| 0 <= i < s.len() ==> #[trigger] s[i].selection is Some
}

/// The code of the `i`-th offered predicate when code `k` is left out.
pub open spec fn offered_code(k: int, i: int) -> int {
    if i < k {
        i
    } else {
        i + 1
    }
}

/// The ids of the roster, in order.
pub open spec fn ids_of(s: Seq<Player>) -> Seq<PlayerId>
    decreases s.len(),
{
    if s.len() == 0 {
        Seq::empty()
    } else {
        ids_of(s.drop_last()).push(s.last().id)
    }
}

/// The ids of the ready players, in roster order.
pub open spec fn ready_ids_of(s: Seq<Player>) -> Seq<PlayerId>
    decreases s.len(),
{
    if s.len() == 0 {
        Seq::empty()
    } else if s.last().ready {
        ready_ids_of(s.drop_last()).push(s.last().id)
    } else {
        ready_ids_of(s.drop_last())
    }
}

/// The phase that a readiness change leads to.
pub open spec fn phase_after_ready(s: Seq<Player>, min_players: usize) -> Phase {
    if s.len() >= min_players && all_ready(s) {
        Phase::RoundSetup
    } else {
        Phase::WaitingRoom
    }
}

/// Which messages each phase accepts.
pub open spec fn accepts(phase: Phase, msg: MessageType) -> bool {
    match msg {
        MessageType::ClientReadyStatus(_) => phase == Phase::WaitingRoom,
        MessageType::GameInit => phase == Phase::RoundSetup,
        MessageType::PlayerTurnStart => phase == Phase::TurnInProgress,
        MessageType::SelectionMade(_) => phase == Phase::TurnInProgress,
        MessageType::EvaluateSelections => phase == Phase::Scoring,
        MessageType::RoundInit(_) => false,
    }
}

/// The two states agree on everything but the roster, the phase and the turn.
pub open spec fn same_round(s: GameState, t: GameState) -> bool {
    &&& t.offered == s.offered
    &&& t.hidden == s.hidden
    &&& t.rounds_played == s.rounds_played
    &&& t.max_rounds == s.max_rounds
    &&& t.min_players == s.min_players
}

/// Effect of `ClientReadyStatus{ready}` from `sender` in the waiting room.
pub open spec fn ready_step(
    s: GameState,
    t: GameState,
    sender: PlayerId,
    ready: bool,
    r: Result<Option<MessageType>, GameError>,
) -> bool {
    if !has_player(s.players@, sender) {
        r == Err::<Option<MessageType>, GameError>(GameError::UnknownPlayer) && t == s
    } else {
        &&& r == Ok::<Option<MessageType>, GameError>(None)
        &&& t.players@.len() == s.players@.len()
        &&& forall|j: int|
            0 <= j < s.players@.len() ==> #[trigger] t.players@[j] == (if s.players@[j].id
                == sender {
                Player { ready: ready, ..s.players@[j] }
            } else {
                s.players@[j]
            })
        &&& t.phase == phase_after_ready(t.players@, s.min_players)
        &&& t.turn == 0
        &&& same_round(s, t)
    }
}

/// Effect of `GameInit` at round setup, where `roll` is a random draw: the
/// hidden number is its low byte, and the predicate with code
/// `(roll / 256) % 7` is the one left out of the offer.
pub open spec fn init_step(
    s: GameState,
    t: GameState,
    roll: u64,
    r: Result<Option<MessageType>, GameError>,
) -> bool {
    let k = ((roll / 256) % 7) as int;
    &&& t.phase == Phase::TurnInProgress
    &&& t.hidden == roll % 256
    &&& t.turn == 0
    &&& t.offered@.len() == OFFERED_PER_ROUND
    &&& forall|i: int|
        0 <= i < OFFERED_PER_ROUND ==> axiom_code(#[trigger] t.offered@[i]) == offered_code(k, i)
    &&& t.players@.len() == s.players@.len()
    &&& forall|j: int|
        0 <= j < s.players@.len() ==> #[trigger] t.players@[j] == Player {
            selection: None,
            ..s.players@[j]
        }
    &&& t.rounds_played == s.rounds_played
    &&& t.max_rounds == s.max_rounds
    &&& t.min_players == s.min_players
    &&& match r {
        Ok(Some(MessageType::RoundInit(p))) => forall|i: int|
            0 <= i < OFFERED_PER_ROUND ==> #[trigger] p.available_axioms@[i] == offered_code(k, i),
        _ => false,
    }
}

/// Effect of `PlayerTurnStart` during a turn: the next player's turn, wrapping.
pub open spec fn advance_step(
    s: GameState,
    t: GameState,
    r: Result<Option<MessageType>, GameError>,
) -> bool {
    &&& r == Ok::<Option<MessageType>, GameError>(None)
    &&& t.turn == (s.turn + 1) % (s.players@.len() as int)
    &&& t.players == s.players
    &&& t.phase == s.phase
    &&& same_round(s, t)
}

/// Effect of `SelectionMade{code}` from `sender` during a turn.
pub open spec fn select_step(
    s: GameState,
    t: GameState,
    sender: PlayerId,
    code: u8,
    r: Result<Option<MessageType>, GameError>,
) -> bool {
    if !has_player(s.players@, sender) {
        r == Err::<Option<MessageType>, GameError>(GameError::UnknownPlayer) && t == s
    } else if !(axiom_of_code(code) is Some && s.offered@.contains(axiom_of_code(code)->Some_0)) {
        r == Err::<Option<MessageType>, GameError>(GameError::InvalidSelection) && t == s
    } else {
        &&& r == Ok::<Option<MessageType>, GameError>(None)
        &&& t.players@.len() == s.players@.len()
        &&& forall|j: int|
            0 <= j < s.players@.len() ==> #[trigger] t.players@[j] == (if s.players@[j].id
                == sender {
                Player { selection: axiom_of_code(code), ..s.players@[j] }
            } else {
                s.players@[j]
            })
        &&& t.phase == (if all_selected(t.players@) {
            Phase::Scoring
        } else {
            Phase::TurnInProgress
        })
        &&& t.turn == s.turn
        &&& same_round(s, t)
    }
}

/// The points a player earns in a round.
pub open spec fn points_for(p: Player, hidden: u8) -> u32 {
    match p.selection {
        Some(a) => if axiom_holds(a, hidden as int) {
            POINTS_PER_HIT
        } else {
            0
        },
        None => 0,
    }
}

/// Effect of `EvaluateSelections` at scoring.
pub open spec fn evaluate_step(
    s: GameState,
    t: GameState,
    r: Result<Option<MessageType>, GameError>,
) -> bool {
    &&& r == Ok::<Option<MessageType>, GameError>(None)
    &&& t.players@.len() == s.players@.len()
    &&& forall|j: int|
        0 <= j < s.players@.len() ==> #[trigger] t.players@[j] == Player {
            score: (s.players@[j].score + points_for(s.players@[j], s.hidden)) as u32,
            ..s.players@[j]
        }
    &&& t.rounds_played == s.rounds_played + 1
    &&& t.phase == (if t.rounds_played >= s.max_rounds {
        Phase::Complete
    } else {
        Phase::RoundSetup
    })
    &&& t.offered == s.offered
    &&& t.hidden == s.hidden
    &&& t.turn == s.turn
    &&& t.max_rounds == s.max_rounds
    &&& t.min_players == s.min_players
}

/// One application of a message from `sender` to the session `s`, giving `t`
/// and the outcome `r`. `roll` is the random draw used when a round starts.
pub open spec fn step(
    s: GameState,
    t: GameState,
    sender: PlayerId,
    msg: MessageType,
    roll: u64,
    r: Result<Option<MessageType>, GameError>,
) -> bool {
    if !accepts(s.phase, msg) {
        r == Err::<Option<MessageType>, GameError>(GameError::IllegalTransition) && t == s
    } else {
        match msg {
            MessageType::ClientReadyStatus(p) => ready_step(s, t, sender, p.ready, r),
            MessageType::GameInit => init_step(s, t, roll, r),
            MessageType::PlayerTurnStart => advance_step(s, t, r),
            MessageType::SelectionMade(p) => select_step(s, t, sender, p.selection, r),
            MessageType::EvaluateSelections => evaluate_step(s, t, r),
            MessageType::RoundInit(_) => false,
        }
    }
}

impl GameState {
    /// The session's invariant.
    pub open spec fn wf(&self) -> bool {
        &&& self.min_players >= 1
        &&& self.max_rounds >= 1
        &&& ids_unique(self.players@)
        &&& self.phase != Phase::WaitingRoom ==> self.turn < self.players@.len()
        &&& (self.phase == Phase::TurnInProgress || self.phase == Phase::Scoring)
            ==> self.offered@.len() == OFFERED_PER_ROUND
        &&& self.phase == Phase::Scoring ==> all_selected(self.players@)
        &&& self.phase != Phase::Complete ==> self.rounds_played < self.max_rounds
        &&& self.rounds_played <= self.max_rounds
        &&& forall|i: int|
            0 <= i < self.players@.len() ==> #[trigger] self.players@[i].score
                <= self.rounds_played
    }
}


fn find_player(players: &Vec<Player>, id: PlayerId) -> (r: Option<usize>)
    ensures
        r is None <==> !has_player(players@, id),
        r matches Some(i) ==> i < players@.len() && players@[i as int].id == id,
{
    let mut i: usize = 0;
    while i < players.len()
        invariant
            i <= players@.len(),
            forall|k: int| 0 <= k < i ==> #[trigger] players@[k].id != id,
        decreases players@.len() - i,
    {
        if players[i].id == id {
            return Some(i);
        }
        i = i + 1;
    }
    None
}

fn check_all_ready(players: &Vec<Player>) -> (r: bool)
    ensures
        r == all_ready(players@),
{
    let mut i: usize = 0;
    while i < players.len()
        invariant
            i <= players@.len(),
            forall|k: int| 0 <= k < i ==> #[trigger] players@[k].ready,
        decreases players@.len() - i,
    {
        if !players[i].ready {
            return false;
        }
        i = i + 1;
    }
    true
}

fn check_all_selected(players: &Vec<Player>) -> (r: bool)
    ensures
        r == all_selected(players@),
{
    let mut i: usize = 0;
    while i < players.len()
        invariant
            i <= players@.len(),
            forall|k: int| 0 <= k < i ==> #[trigger] players@[k].selection is Some,
        decreases players@.len() - i,
    {
        if players[i].selection.is_none() {
            return false;
        }
        i = i + 1;
    }
    true
}

impl GameState {
    /// An empty room that starts a round once `min_players` players are all
    /// ready, and ends after `max_rounds` rounds.
    pub fn new(min_players: usize, max_rounds: u32) -> (r: GameState)
        requires
            min_players >= 1,
            max_rounds >= 1,
        ensures
            r.wf(),
            r.phase == Phase::WaitingRoom,
            r.players@.len() == 0,
            r.offered@.len() == 0,
            r.rounds_played == 0,
            r.min_players == min_players,
            r.max_rounds == max_rounds,
    {
        GameState {
            phase: Phase::WaitingRoom,
            players: Vec::new(),
            offered: Vec::new(),
            hidden: 0,
            turn: 0,
            rounds_played: 0,
            max_rounds,
            min_players,
        }
    }

    /// Adds a player to the waiting room. A player already in the room is left
    /// where it stands; outside the waiting room nobody can join.
    pub fn join(&mut self, id: PlayerId) -> (r: Result<(), GameError>)
        requires
            old(self).wf(),
        ensures
            final(self).wf(),
            old(self).phase != Phase::WaitingRoom ==> r == Err::<(), GameError>(
                GameError::IllegalTransition,
            ) && *final(self) == *old(self),
            old(self).phase == Phase::WaitingRoom ==> r is Ok,
            old(self).phase == Phase::WaitingRoom && has_player(old(self).players@, id)
                ==> *final(self) == *old(self),
            old(self).phase == Phase::WaitingRoom && !has_player(old(self).players@, id) ==> {
                &&& final(self).players@ == old(self).players@.push(
                    Player { id: id, ready: false, score: 0, selection: None },
                )
                &&& final(self).phase == Phase::WaitingRoom
                &&& same_round(*old(self), *final(self))
                &&& final(self).turn == old(self).turn
            },
    {
        if self.phase != Phase::WaitingRoom {
            return Err(GameError::IllegalTransition);
        }
        if find_player(&self.players, id).is_some() {
            return Ok(());
        }
        self.players.push(Player { id, ready: false, score: 0, selection: None });
        Ok(())
    }

    /// Takes a player out of the roster, keeping the others in order. When
    /// the roster empties the room starts over in the waiting phase. Returns
    /// whether the player was there.
    pub fn leave(&mut self, id: PlayerId) -> (r: bool)
        requires
            old(self).wf(),
        ensures
            final(self).wf(),
            r == has_player(old(self).players@, id),
            !r ==> *final(self) == *old(self),
            r ==> exists|i: int|
                0 <= i < old(self).players@.len() && old(self).players@[i].id == id
                    && final(self).players@ == old(self).players@.remove(i),
            r && final(self).players@.len() == 0 ==> {
                &&& final(self).phase == Phase::WaitingRoom
                &&& final(self).rounds_played == 0
                &&& final(self).max_rounds == old(self).max_rounds
                &&& final(self).min_players == old(self).min_players
            },
            r && final(self).players@.len() > 0 ==> {
                &&& same_round(*old(self), *final(self))
                &&& final(self).phase == old(self).phase
            },
    {
        match find_player(&self.players, id) {
            None => false,
            Some(i) => {
                let ghost before = self.players@;
                self.players.remove(i);
                assert(ids_unique(self.players@)) by {
                    assert forall|a: int, b: int| 0 <= a < b < self.players@.len() implies
                        #[trigger] self.players@[a].id != #[trigger] self.players@[b].id by {
                        let a0 = if a < i { a } else { a + 1 };
                        let b0 = if b < i { b } else { b + 1 };
                        assert(self.players@[a] == before[a0]);
                        assert(self.players@[b] == before[b0]);
                    }
                }
                assert forall|k: int| 0 <= k < self.players@.len() implies
                    #[trigger] self.players@[k].score <= self.rounds_played by {
                    let k0 = if k < i { k } else { k + 1 };
                    assert(self.players@[k] == before[k0]);
                }
                assert(all_selected(before) ==> all_selected(self.players@)) by {
                    if all_selected(before) {
                        assert forall|k: int| 0 <= k < self.players@.len() implies
                            #[trigger] self.players@[k].selection is Some by {
                            let k0 = if k < i { k } else { k + 1 };
                            assert(self.players@[k] == before[k0]);
                        }
                    }
                }
                if self.players.len() == 0 {
                    self.phase = Phase::WaitingRoom;
                    self.rounds_played = 0;
                } else if self.turn >= self.players.len() {
                    self.turn = 0;
                }
                true
            },
        }
    }

    /// The roster's ids in join order, and those of the ready players.
    pub fn waiting_room(&self) -> (r: WaitingRoomState)
        ensures
            r.in_room@ == ids_of(self.players@),
            r.ready@ == ready_ids_of(self.players@),
    {
        let mut in_room: Vec<PlayerId> = Vec::new();
        let mut ready: Vec<PlayerId> = Vec::new();
        let mut i: usize = 0;
        while i < self.players.len()
            invariant
                i <= self.players@.len(),
                in_room@ == ids_of(self.players@.take(i as int)),
                ready@ == ready_ids_of(self.players@.take(i as int)),
            decreases self.players@.len() - i,
        {
            let p = self.players[i];
            assert(self.players@.take(i + 1).drop_last() =~= self.players@.take(i as int));
            in_room.push(p.id);
            if p.ready {
                ready.push(p.id);
            }
            i = i + 1;
        }
        assert(self.players@.take(i as int) =~= self.players@);
        WaitingRoomState { in_room, ready }
    }

    /// `ClientReadyStatus`: sets the sender's readiness. When every player is
    /// ready and there are enough of them, the room moves to round setup.
    fn set_ready(&mut self, sender: PlayerId, ready: bool) -> (r: Result<
        Option<MessageType>,
        GameError,
    >)
        requires
            old(self).wf(),
            old(self).phase == Phase::WaitingRoom,
        ensures
            final(self).wf(),
            ready_step(*old(self), *final(self), sender, ready, r),
    {
        if find_player(&self.players, sender).is_none() {
            return Err(GameError::UnknownPlayer);
        }
        let mut next: Vec<Player> = Vec::new();
        let mut i: usize = 0;
        while i < self.players.len()
            invariant
                i <= self.players@.len(),
                next@.len() == i,
                forall|j: int|
                    0 <= j < i ==> #[trigger] next@[j] == (if self.players@[j].id == sender {
                        Player { ready: ready, ..self.players@[j] }
                    } else {
                        self.players@[j]
                    }),
            decreases self.players@.len() - i,
        {
            let p = self.players[i];
            if p.id == sender {
                next.push(Player { ready, ..p });
            } else {
                next.push(p);
            }
            i = i + 1;
        }
        self.players = next;
        self.turn = 0;
        if self.players.len() >= self.min_players && check_all_ready(&self.players) {
            self.phase = Phase::RoundSetup;
        } else {
            self.phase = Phase::WaitingRoom;
        }
        Ok(None)
    }

    /// `GameInit`: offers six of the seven predicates, leaving out the one with
    /// code `(roll / 256) % 7`, hides the low byte of `roll`, clears the picks
    /// and gives the turn to the first player.
    fn start_round(&mut self, roll: u64) -> (r: Result<Option<MessageType>, GameError>)
        requires
            old(self).wf(),
            old(self).phase == Phase::RoundSetup,
        ensures
            final(self).wf(),
            init_step(*old(self), *final(self), roll, r),
    {
        let k: u8 = ((roll / 256) % 7) as u8;
        let codes: [u8; 6] = [
            offered_code_of(k, 0),
            offered_code_of(k, 1),
            offered_code_of(k, 2),
            offered_code_of(k, 3),
            offered_code_of(k, 4),
            offered_code_of(k, 5),
        ];
        let mut offered: Vec<GameAxiom> = Vec::new();
        let mut i: usize = 0;
        while i < OFFERED_PER_ROUND
            invariant
                i <= OFFERED_PER_ROUND,
                offered@.len() == i,
                forall|j: int| 0 <= j < 6 ==> #[trigger] codes@[j] == offered_code(k as int, j),
                forall|j: int|
                    0 <= j < i ==> axiom_code(#[trigger] offered@[j]) == offered_code(k as int, j),
            decreases OFFERED_PER_ROUND - i,
        {
            let c = codes[i];
            match GameAxiom::from_code(c) {
                Some(a) => {
                    proof {
                        lemma_code_bijection(a, c);
                    }
                    offered.push(a);
                },
                None => {
                    proof {
                        lemma_code_bijection(GameAxiom::IsEven, c);
                    }
                },
            }
            i = i + 1;
        }
        let mut next: Vec<Player> = Vec::new();
        let mut j: usize = 0;
        while j < self.players.len()
            invariant
                j <= self.players@.len(),
                next@.len() == j,
                forall|m: int|
                    0 <= m < j ==> #[trigger] next@[m] == (Player {
                        selection: None,
                        ..self.players@[m]
                    }),
            decreases self.players@.len() - j,
        {
            let p = self.players[j];
            next.push(Player { selection: None, ..p });
            j = j + 1;
        }
        let ghost before = self.players@;
        self.players = next;
        assert(ids_unique(self.players@)) by {
            assert forall|a: int, b: int| 0 <= a < b < self.players@.len() implies
                #[trigger] self.players@[a].id != #[trigger] self.players@[b].id by {
                assert(self.players@[a].id == before[a].id);
                assert(self.players@[b].id == before[b].id);
            }
        }
        assert forall|m: int| 0 <= m < self.players@.len() implies
            #[trigger] self.players@[m].score <= self.rounds_played by {
            assert(self.players@[m].score == before[m].score);
        }
        self.offered = offered;
        self.hidden = (roll % 256) as u8;
        self.turn = 0;
        self.phase = Phase::TurnInProgress;
        Ok(Some(MessageType::RoundInit(RoundInitPayload { available_axioms: codes })))
    }

    /// `PlayerTurnStart`: the turn passes to the next player, wrapping around.
    fn advance_turn(&mut self) -> (r: Result<Option<MessageType>, GameError>)
        requires
            old(self).wf(),
            old(self).phase == Phase::TurnInProgress,
        ensures
            final(self).wf(),
            advance_step(*old(self), *final(self), r),
    {
        if self.turn == self.players.len() - 1 {
            proof {
                lemma_mod_self_0(self.players@.len() as int);
            }
            self.turn = 0;
        } else {
            proof {
                lemma_small_mod((self.turn + 1) as nat, self.players@.len() as nat);
            }
            self.turn = self.turn + 1;
        }
        Ok(None)
    }

    /// `SelectionMade`: records the sender's pick, which must be one of the
    /// offered predicates. Once everybody has picked, the round goes to scoring.
    fn select(&mut self, sender: PlayerId, code: u8) -> (r: Result<Option<MessageType>, GameError>)
        requires
            old(self).wf(),
            old(self).phase == Phase::TurnInProgress,
        ensures
            final(self).wf(),
            select_step(*old(self), *final(self), sender, code, r),
    {
        if find_player(&self.players, sender).is_none() {
            return Err(GameError::UnknownPlayer);
        }
        let pick = match GameAxiom::from_code(code) {
            Some(a) => a,
            None => {
                return Err(GameError::InvalidSelection);
            },
        };
        let mut found = false;
        let mut i: usize = 0;
        while i < self.offered.len()
            invariant
                i <= self.offered@.len(),
                found == (exists|j: int| 0 <= j < i && self.offered@[j] == pick),
            decreases self.offered@.len() - i,
        {
            if self.offered[i] == pick {
                found = true;
            }
            i = i + 1;
        }
        if !found {
            return Err(GameError::InvalidSelection);
        }
        let mut next: Vec<Player> = Vec::new();
        let mut j: usize = 0;
        while j < self.players.len()
            invariant
                j <= self.players@.len(),
                next@.len() == j,
                axiom_of_code(code) == Some(pick),
                forall|m: int|
                    0 <= m < j ==> #[trigger] next@[m] == (if self.players@[m].id == sender {
                        Player { selection: axiom_of_code(code), ..self.players@[m] }
                    } else {
                        self.players@[m]
                    }),
            decreases self.players@.len() - j,
        {
            let p = self.players[j];
            if p.id == sender {
                next.push(Player { selection: Some(pick), ..p });
            } else {
                next.push(p);
            }
            j = j + 1;
        }
        let ghost before = self.players@;
        self.players = next;
        assert(ids_unique(self.players@)) by {
            assert forall|a: int, b: int| 0 <= a < b < self.players@.len() implies
                #[trigger] self.players@[a].id != #[trigger] self.players@[b].id by {
                assert(self.players@[a].id == before[a].id);
                assert(self.players@[b].id == before[b].id);
            }
        }
        assert forall|m: int| 0 <= m < self.players@.len() implies
            #[trigger] self.players@[m].score <= self.rounds_played by {
            assert(self.players@[m].score == before[m].score);
        }
        if check_all_selected(&self.players) {
            self.phase = Phase::Scoring;
        }
        Ok(None)
    }

    /// `EvaluateSelections`: every player whose pick holds of the hidden number
    /// earns the points; the round count goes up and the game either returns to
    /// round setup or, at the last round, is complete.
    fn evaluate(&mut self) -> (r: Result<Option<MessageType>, GameError>)
        requires
            old(self).wf(),
            old(self).phase == Phase::Scoring,
        ensures
            final(self).wf(),
            evaluate_step(*old(self), *final(self), r),
    {
        let mut next: Vec<Player> = Vec::new();
        let mut j: usize = 0;
        while j < self.players.len()
            invariant
                j <= self.players@.len(),
                next@.len() == j,
                self.wf(),
                self.phase == Phase::Scoring,
                forall|m: int|
                    0 <= m < j ==> #[trigger] next@[m] == (Player {
                        score: (self.players@[m].score + points_for(
                            self.players@[m],
                            self.hidden,
                        )) as u32,
                        ..self.players@[m]
                    }),
            decreases self.players@.len() - j,
        {
            let p = self.players[j];
            let gained: u32 = match p.selection {
                Some(a) => if a.holds(self.hidden) {
                    POINTS_PER_HIT
                } else {
                    0
                },
                None => 0,
            };
            assert(p.score <= self.rounds_played);
            assert(gained <= 1);
            next.push(Player { score: p.score + gained, ..p });
            j = j + 1;
        }
        let ghost before = self.players@;
        self.players = next;
        self.rounds_played = self.rounds_played + 1;
        assert(ids_unique(self.players@)) by {
            assert forall|a: int, b: int| 0 <= a < b < self.players@.len() implies
                #[trigger] self.players@[a].id != #[trigger] self.players@[b].id by {
                assert(self.players@[a].id == before[a].id);
                assert(self.players@[b].id == before[b].id);
            }
        }
        assert forall|m: int| 0 <= m < self.players@.len() implies
            #[trigger] self.players@[m].score <= self.rounds_played by {
            assert(before[m].score <= self.rounds_played - 1);
        }
        if self.rounds_played >= self.max_rounds {
            self.phase = Phase::Complete;
        } else {
            self.phase = Phase::RoundSetup;
        }
        Ok(None)
    }

    /// Applies a message from `sender`. A message that the current phase does
    /// not take is refused with `IllegalTransition`; every refusal leaves the
    /// session as it was. `roll` is the random draw for a round's start.
    pub fn apply(&mut self, sender: PlayerId, msg: MessageType, roll: u64) -> (r: Result<
        Option<MessageType>,
        GameError,
    >)
        requires
            old(self).wf(),
        ensures
            final(self).wf(),
            step(*old(self), *final(self), sender, msg, roll, r),
    {
        match msg {
            MessageType::ClientReadyStatus(p) => {
                if self.phase != Phase::WaitingRoom {
                    return Err(GameError::IllegalTransition);
                }
                self.set_ready(sender, p.ready)
            },
            MessageType::GameInit => {
                if self.phase != Phase::RoundSetup {
                    return Err(GameError::IllegalTransition);
                }
                self.start_round(roll)
            },
            MessageType::PlayerTurnStart => {
                if self.phase != Phase::TurnInProgress {
                    return Err(GameError::IllegalTransition);
                }
                self.advance_turn()
            },
            MessageType::SelectionMade(p) => {
                if self.phase != Phase::TurnInProgress {
                    return Err(GameError::IllegalTransition);
                }
                self.select(sender, p.selection)
            },
            MessageType::EvaluateSelections => {
                if self.phase != Phase::Scoring {
                    return Err(GameError::IllegalTransition);
                }
                self.evaluate()
            },
            MessageType::RoundInit(_) => Err(GameError::IllegalTransition),
        }
    }
}

impl GameState {
    /// Applies a message from `sender`, drawing the random value that a
    /// round's start needs. Whatever was drawn, the outcome is one step of
    /// the session.
    pub fn transition(&mut self, sender: PlayerId, msg: MessageType) -> (r: Result<
        Option<MessageType>,
        GameError,
    >)
        requires
            old(self).wf(),
        ensures
            final(self).wf(),
            exists|roll: u64| step(*old(self), *final(self), sender, msg, roll, r),
    {
        let ghost before = *self;
        let roll = draw_roll();
        let r = self.apply(sender, msg, roll);
        assert(step(before, *self, sender, msg, roll, r));
        r
    }
}

/// How the outcome of a step shows to the connection layer: an outbound
/// message as its encoding, a refusal as a game error.
pub open spec fn reply_matches(
    res: Result<Option<MessageType>, GameError>,
    r: Result<Option<Vec<u8>>, InboundError>,
) -> bool {
    match res {
        Err(g) => r == Err::<Option<Vec<u8>>, InboundError>(InboundError::Game(g)),
        Ok(None) => r == Ok::<Option<Vec<u8>>, InboundError>(None),
        Ok(Some(out)) => r matches Ok(Some(v)) && v@ == encode_spec(out),
    }
}

impl GameState {
    /// Handles one inbound buffer from the connection of `sender`: decodes
    /// it, applies the message, and encodes the reply if there is one. A
    /// buffer that does not decode changes nothing.
    pub fn handle_inbound(&mut self, sender: PlayerId, bytes: Vec<u8>) -> (r: Result<
        Option<Vec<u8>>,
        InboundError,
    >)
        requires
            old(self).wf(),
        ensures
            final(self).wf(),
            match decode_spec(bytes@) {
                Err(e) => r == Err::<Option<Vec<u8>>, InboundError>(InboundError::Decode(e))
                    && *final(self) == *old(self),
                Ok(m) => exists|roll: u64, res: Result<Option<MessageType>, GameError>|
                    step(*old(self), *final(self), sender, m, roll, res) && reply_matches(res, r),
            },
    {
        let ghost before = *self;
        match try_parse_message(bytes) {
            Err(e) => Err(InboundError::Decode(e)),
            Ok(m) => {
                let roll = draw_roll();
                let res = self.apply(sender, m, roll);
                let r = match res {
                    Err(g) => Err(InboundError::Game(g)),
                    Ok(None) => Ok(None),
                    Ok(Some(out)) => Ok(Some(out.encode())),
                };
                assert(step(before, *self, sender, m, roll, res) && reply_matches(res, r));
                r
            },
        }
    }
}

impl Default for GameState {
    /// An empty room with the default roster minimum and number of rounds.
    fn default() -> (r: GameState)
        ensures
            r.wf(),
            r.phase == Phase::WaitingRoom,
            r.players@.len() == 0,
            r.rounds_played == 0,
            r.min_players == DEFAULT_MIN_PLAYERS,
            r.max_rounds == DEFAULT_ROUNDS,
    {
        GameState::new(DEFAULT_MIN_PLAYERS, DEFAULT_ROUNDS)
    }
}

/// Relies on rand::random: a `u64` from the thread-local generator. Nothing
/// is known of its value.
#[verifier::external_body]
fn draw_roll() -> (r: u64) {
    rand::random::<u64>()
}

/// A refused message leaves the session exactly as it was.
pub proof fn lemma_refusal_keeps_state(
    s: GameState,
    t: GameState,
    sender: PlayerId,
    msg: MessageType,
    roll: u64,
    r: Result<Option<MessageType>, GameError>,
)
    requires
        step(s, t, sender, msg, roll, r),
    ensures
        r is Err ==> t == s,
{
}

/// A pick sent while the room is still waiting is an illegal transition and
/// changes nothing.
pub proof fn lemma_selection_while_waiting(
    s: GameState,
    t: GameState,
    sender: PlayerId,
    code: u8,
    roll: u64,
    r: Result<Option<MessageType>, GameError>,
)
    requires
        s.phase == Phase::WaitingRoom,
        step(s, t, sender, MessageType::SelectionMade(SelectionMadePayload { selection: code }), roll, r),
    ensures
        r == Err::<Option<MessageType>, GameError>(GameError::IllegalTransition),
        t == s,
{
}

/// Announcing readiness again for a player who is already ready leaves the
/// roster as it was: same players, same order, no duplicate.
pub proof fn lemma_ready_again_keeps_roster(
    s: GameState,
    t: GameState,
    sender: PlayerId,
    roll: u64,
    r: Result<Option<MessageType>, GameError>,
)
    requires
        s.wf(),
        exists|i: int| 0 <= i < s.players@.len() && #[trigger] s.players@[i].id == sender && s.players@[i].ready,
        step(s, t, sender, MessageType::ClientReadyStatus(ClientReadyPayload { ready: true }), roll, r),
    ensures
        t.players@ == s.players@,
        ids_of(t.players@) == ids_of(s.players@),
{
    if s.phase == Phase::WaitingRoom {
        let i = choose|i: int| 0 <= i < s.players@.len() && #[trigger] s.players@[i].id == sender && s.players@[i].ready;
        assert forall|j: int| 0 <= j < s.players@.len() implies #[trigger] t.players@[j] == s.players@[j] by {
            if s.players@[j].id == sender {
                if j != i {
                    if j < i {
                        assert(s.players@[j].id != s.players@[i].id);
                    } else {
                        assert(s.players@[i].id != s.players@[j].id);
                    }
                }
            }
        }
        assert(t.players@ =~= s.players@);
    }
}

fn offered_code_of(k: u8, i: u8) -> (r: u8)
    requires
        k < 7,
        i < 6,
    ensures
        r == offered_code(k as int, i as int),
{
    if i < k {
        i
    } else {
        i + 1
    }
}

} // verus!
