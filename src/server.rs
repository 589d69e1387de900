use dashmap::DashMap;
use vstd::prelude::*;

use crate::game::{Game, MoveError, MoveResponse};
use crate::ids::{fresh_uuid, ClientInfo, GameId, UserId};
use crate::store::{no_sessions, sessions_get, sessions_insert, sessions_new, sessions_of};

verus! {

/// Whether a connecting client was paired, and if so who moves first.
#[derive(Clone, Copy, PartialEq, Eq, Structural, Debug)]
pub enum ConnectionState {
    WaitingForGame,
    JoinedGame { turn: UserId },
}

impl ConnectionState {
    pub fn new_joined_game(turn: UserId) -> (r: Self)
        ensures
            r == (ConnectionState::JoinedGame { turn }),
    {
        ConnectionState::JoinedGame { turn }
    }
}

/// Answer to a connect request.
#[derive(Clone, Copy, PartialEq, Eq, Structural, Debug)]
pub struct ConnectResponse {
    pub client_info: ClientInfo,
    pub connection_state: ConnectionState,
}

/// A move request: player `user_id` marks column `x`, row `y` of game `game_id`.
#[derive(Clone, Copy, PartialEq, Eq, Structural, Debug)]
pub struct MoveInfo {
    pub x: usize,
    pub y: usize,
    pub user_id: UserId,
    pub game_id: GameId,
}

/// Answer to a poll that succeeded.
#[derive(Clone, Copy, PartialEq, Eq, Debug)]
pub enum PollResponse {
    ActiveGame { game: Game },
    WaitingForGame,
}

/// Why a poll failed.
#[derive(Clone, Copy, PartialEq, Eq, Structural, Debug)]
pub enum PollError {
    BadGameId(GameId),
    BadUserId(UserId),
}

/// The state of a server: the players waiting for a partner, in the order
/// they came, and the sessions by the value of their id.
pub struct ServerView {
    pub waiting: Seq<ClientInfo>,
    pub games: Map<u128, Game>,
}

/// A game as a pairing creates it: `turn` moves first, `a` and `b` play,
/// and the board is empty.
pub open spec fn started(g: Game, turn: UserId, a: UserId, b: UserId) -> bool {
    &&& g.active_turn == turn
    &&& g.players@ == seq![a, b]
    &&& g.board_empty()
}

/// `post` and `r` are what a connect from state `pre` gives, where `user` is
/// the new player's id, `game` the id of a session that would be opened for
/// it, and `first` tells whether the new player moves first.
///
/// With nobody waiting, the new player waits. Otherwise the player who came
/// last is taken from the list and a session for the two is stored under
/// that player's game id.
pub open spec fn connect_step(
    pre: ServerView,
    user: u128,
    game: u128,
    first: bool,
    post: ServerView,
    r: ConnectResponse,
) -> bool {
    if pre.waiting.len() == 0 {
        let me = ClientInfo { user_id: UserId(user), game_id: GameId(game) };
        &&& post.waiting == seq![me]
        &&& post.games == pre.games
        &&& r == (ConnectResponse {
            client_info: me,
            connection_state: ConnectionState::WaitingForGame,
        })
    } else {
        let other = pre.waiting.last();
        let me = ClientInfo { user_id: UserId(user), game_id: other.game_id };
        let turn = if first {
            me.user_id
        } else {
            other.user_id
        };
        let id = other.game_id.0;
        &&& post.waiting == pre.waiting.drop_last()
        &&& post.games == pre.games.insert(id, post.games[id])
        &&& started(post.games[id], turn, me.user_id, other.user_id)
        &&& r == (ConnectResponse {
            client_info: me,
            connection_state: ConnectionState::JoinedGame { turn },
        })
    }
}

/// `post` and `r` are what the move request `info` gives in state `pre`.
pub open spec fn move_step(pre: ServerView, info: MoveInfo, r: Result<MoveResponse, MoveError>, post: ServerView) -> bool {
    let id = info.game_id.0;
    if pre.games.contains_key(id) {
        &&& Game::move_step(pre.games[id], info.user_id, info.x, info.y, r, post.games[id])
        &&& post.games == pre.games.insert(id, post.games[id])
        &&& post.waiting == pre.waiting
    } else {
        &&& r == Err::<MoveResponse, MoveError>(MoveError::InvalidGameId { id: info.game_id })
        &&& post == pre
    }
}

pub open spec fn is_waiting(v: ServerView, u: UserId) -> bool {
    exists|i: int| 0 <= i < v.waiting.len() && (#[trigger] v.waiting[i]).user_id == u
}

/// What a poll by `user_id` on `game_id` answers in state `v`. When the game
/// exists: the game if the user plays in it, else `BadUserId`. When it does
/// not: a waiting notice if the user is on the waiting list, else
/// `BadGameId`.
pub open spec fn poll_result(v: ServerView, user_id: UserId, game_id: GameId) -> Result<
    PollResponse,
    PollError,
> {
    if v.games.contains_key(game_id.0) {
        let g = v.games[game_id.0];
        if g.is_player(user_id) {
            Ok(PollResponse::ActiveGame { game: g })
        } else {
            Err(PollError::BadUserId(user_id))
        }
    } else if is_waiting(v, user_id) {
        Ok(PollResponse::WaitingForGame)
    } else {
        Err(PollError::BadGameId(game_id))
    }
}

/// Shared state of a server: the waiting list and the session store.
pub struct Server {
    waiting: Vec<ClientInfo>,
    games: DashMap<u128, Game>,
}

impl View for Server {
    type V = ServerView;

    closed spec fn view(&self) -> ServerView {
        ServerView { waiting: self.waiting@, games: sessions_of(self.games) }
    }
}

impl Server {
    /// A server with nobody waiting and no sessions.
    pub fn new() -> (r: Self)
        ensures
            r@.waiting == Seq::<ClientInfo>::empty(),
            r@.games == no_sessions(),
    {
        Server { waiting: Vec::new(), games: sessions_new() }
    }

    /// Connects a new player whose id is `user`; `game` is the id of the
    /// session opened for it if it has to wait, and `first` tells whether
    /// it moves first if it is paired.
    pub fn connect_with(&mut self, user: u128, game: u128, first: bool) -> (r: ConnectResponse)
        ensures
            connect_step(old(self)@, user, game, first, final(self)@, r),
    {
        match self.waiting.pop() {
            None => {
                let me = ClientInfo { user_id: UserId(user), game_id: GameId(game) };
                self.waiting.push(me);
                assert(self.waiting@ =~= seq![me]);
                ConnectResponse { client_info: me, connection_state: ConnectionState::WaitingForGame }
            },
            Some(other) => {
                let me = ClientInfo { user_id: UserId(user), game_id: other.game_id };
                let turn = if first {
                    me.user_id
                } else {
                    other.user_id
                };
                let g = Game::new(turn, [me.user_id, other.user_id]);
                sessions_insert(&mut self.games, me.game_id.0, g);
                assert(g.players@ =~= seq![me.user_id, other.user_id]);
                ConnectResponse {
                    client_info: me,
                    connection_state: ConnectionState::new_joined_game(turn),
                }
            },
        }
    }

    /// Connects a new player under a fresh random id; who moves first in a
    /// new pairing is drawn at random.
    pub fn connect(&mut self) -> (r: ConnectResponse)
        ensures
            exists|user: u128, game: u128, first: bool|
                connect_step(old(self)@, user, game, first, final(self)@, r),
    {
        let user = fresh_uuid();
        let game = fresh_uuid();
        let first = coin_flip();
        self.connect_with(user, game, first)
    }

    /// Applies the move request `info` to its session.
    pub fn make_move(&mut self, info: MoveInfo) -> (r: Result<MoveResponse, MoveError>)
        ensures
            move_step(old(self)@, info, r, final(self)@),
    {
        let id = info.game_id.0;
        match sessions_get(&self.games, id) {
            None => Err(MoveError::InvalidGameId { id: info.game_id }),
            Some(g) => {
                let mut g = g;
                let r = g.apply_move(info.user_id, info.x, info.y);
                if r.is_ok() {
                    sessions_insert(&mut self.games, id, g);
                } else {
                    assert(sessions_of(self.games).insert(id, g) =~= sessions_of(self.games));
                }
                r
            },
        }
    }

    /// Reports the state of game `game_id` as seen by `user_id`.
    pub fn poll(&self, user_id: UserId, game_id: GameId) -> (r: Result<PollResponse, PollError>)
        ensures
            r == poll_result(self@, user_id, game_id),
    {
        match sessions_get(&self.games, game_id.0) {
            Some(g) => {
                if g.players[0] != user_id && g.players[1] != user_id {
                    Err(PollError::BadUserId(user_id))
                } else {
                    Ok(PollResponse::ActiveGame { game: g })
                }
            },
            None => {
                let mut i: usize = 0;
                while i < self.waiting.len()
                    invariant
                        !self@.games.contains_key(game_id.0),
                        i <= self.waiting@.len(),
                        forall|j: int| 0 <= j < i ==> self.waiting@[j].user_id != user_id,
                    decreases self.waiting@.len() - i,
                {
                    if self.waiting[i].user_id == user_id {
                        assert(is_waiting(self@, user_id)) by {
                            assert(self@.waiting[i as int].user_id == user_id);
                        }
                        return Ok(PollResponse::WaitingForGame);
                    }
                    i += 1;
                }
                Err(PollError::BadGameId(game_id))
            },
        }
    }
}

/// Relies on rand::random for a `bool`: a fair coin. Nothing is promised of
/// the outcome.
#[verifier::external_body]
fn coin_flip() -> (r: bool) {
    rand::random::<bool>()
}

} // verus!
