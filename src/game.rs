use vstd::prelude::*;

use crate::ids::UserId;

verus! {

/// Width and height of the board.
pub const BOARD_SIZE: usize = 3;

/// Answer to an accepted move.
#[derive(Clone, Copy, PartialEq, Eq, Structural, Debug)]
pub struct MoveResponse;

/// Why a move was rejected.
#[derive(Clone, Copy, PartialEq, Eq, Structural, Debug)]
#[allow(inconsistent_fields)]
pub enum MoveError {
    InvalidIndex,
    SpotAlreadyTaken { x: usize, y: usize },
    InvalidUserId { id: UserId },
    InvalidGameId { id: crate::ids::GameId },
    NotYourTurn,
}

/// One match: whose turn it is, the 3x3 board (indexed `board[y][x]`), and
/// the two players.
#[derive(Clone, Copy, PartialEq, Eq, Hash, Debug)]
pub struct Game {
    pub active_turn: UserId,
    pub board: [[Option<UserId>; 3]; 3],
    pub players: [UserId; 2],
}

impl Game {
    /// The occupant of column `x`, row `y`.
    pub open spec fn cell(self, x: int, y: int) -> Option<UserId> {
        self.board@[y]@[x]
    }

    pub open spec fn is_player(self, u: UserId) -> bool {
        self.players@[0] == u || self.players@[1] == u
    }

    /// The player that is not `u` (the first one when `u` is not the first).
    pub open spec fn other_than(self, u: UserId) -> UserId {
        if self.players@[0] == u {
            self.players@[1]
        } else {
            self.players@[0]
        }
    }

    /// A session as the rules keep it: the active player takes part, and the
    /// two players differ.
    pub open spec fn wf(self) -> bool {
        self.is_player(self.active_turn) && self.players@[0] != self.players@[1]
    }

    pub open spec fn board_empty(self) -> bool {
        forall|x: int, y: int| 0 <= x < 3 && 0 <= y < 3 ==> #[trigger] self.cell(x, y).is_none()
    }

    /// `post` has the board of `pre`, but with `v` placed at column `x`, row `y`.
    pub open spec fn placed(pre: Game, post: Game, x: int, y: int, v: UserId) -> bool {
        forall|i: int, j: int|
            0 <= i < 3 && 0 <= j < 3 ==> #[trigger] post.cell(i, j) == (if i == x && j == y {
                Some(v)
            } else {
                pre.cell(i, j)
            })
    }

    /// The outcome of player `u` moving to column `x`, row `y`: the first
    /// failing check decides the error.
    pub open spec fn move_result(self, u: UserId, x: usize, y: usize) -> Result<MoveResponse, MoveError> {
        if !self.is_player(u) {
            Err(MoveError::InvalidUserId { id: u })
        } else if self.active_turn != u {
            Err(MoveError::NotYourTurn)
        } else if x >= 3 || y >= 3 {
            Err(MoveError::InvalidIndex)
        } else if self.cell(x as int, y as int).is_some() {
            Err(MoveError::SpotAlreadyTaken { x, y })
        } else {
            Ok(MoveResponse)
        }
    }

    /// `post` is `pre` after the attempt of `u` at (`x`, `y`) that gave `r`.
    pub open spec fn move_step(
        pre: Game,
        u: UserId,
        x: usize,
        y: usize,
        r: Result<MoveResponse, MoveError>,
        post: Game,
    ) -> bool {
        &&& r == pre.move_result(u, x, y)
        &&& r.is_ok() ==> {
            &&& post.players == pre.players
            &&& post.active_turn == pre.other_than(u)
            &&& Game::placed(pre, post, x as int, y as int, u)
        }
        &&& r.is_err() ==> post == pre
    }

    /// A fresh game with an empty board, started by `turn`.
    pub fn new(turn: UserId, players: [UserId; 2]) -> (r: Self)
        requires
            players@[0] == turn || players@[1] == turn,
        ensures
            r.active_turn == turn,
            r.players == players,
            r.board_empty(),
    {
        Game {
            active_turn: turn,
            board: [[None, None, None], [None, None, None], [None, None, None]],
            players,
        }
    }

    /// Marks column `x`, row `y` for the active player and hands the turn to
    /// the first player that is not the active one; `None` when there is none,
    /// and the turn then stays.
    pub fn make_move(&mut self, x: usize, y: usize) -> (r: Option<()>)
        requires
            x < 3,
            y < 3,
        ensures
            final(self).players == old(self).players,
            Game::placed(*old(self), *final(self), x as int, y as int, old(self).active_turn),
            old(self).players@[0] != old(self).active_turn ==> r == Some(())
                && final(self).active_turn == old(self).players@[0],
            old(self).players@[0] == old(self).active_turn && old(self).players@[1]
                != old(self).active_turn ==> r == Some(()) && final(self).active_turn == old(
                self,
            ).players@[1],
            old(self).players@[0] == old(self).active_turn && old(self).players@[1]
                == old(self).active_turn ==> r.is_none() && final(self).active_turn == old(
                self,
            ).active_turn,
    {
        self.board[y][x] = Some(self.active_turn);
        if self.players[0] != self.active_turn {
            self.active_turn = self.players[0];
            Some(())
        } else if self.players[1] != self.active_turn {
            self.active_turn = self.players[1];
            Some(())
        } else {
            None
        }
    }

    /// Checks the move of `user_id` to column `x`, row `y` against the
    /// session and applies it when every check passes.
    pub fn apply_move(&mut self, user_id: UserId, x: usize, y: usize) -> (r: Result<
        MoveResponse,
        MoveError,
    >)
        ensures
            Game::move_step(*old(self), user_id, x, y, r, *final(self)),
    {
        if self.players[0] != user_id && self.players[1] != user_id {
            return Err(MoveError::InvalidUserId { id: user_id });
        }
        if self.active_turn != user_id {
            return Err(MoveError::NotYourTurn);
        }
        if x >= BOARD_SIZE || y >= BOARD_SIZE {
            return Err(MoveError::InvalidIndex);
        }
        if self.board[y][x].is_some() {
            return Err(MoveError::SpotAlreadyTaken { x, y });
        }
        let _ = self.make_move(x, y);
        Ok(MoveResponse)
    }
}

} // verus!
