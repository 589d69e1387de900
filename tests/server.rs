use tictac_server::game::{Game, MoveError, MoveResponse};
use tictac_server::ids::{ClientInfo, GameId, UserId};
use tictac_server::server::{
    ConnectResponse, ConnectionState, MoveInfo, PollError, PollResponse, Server,
};

fn mv(user: UserId, game: GameId, x: usize, y: usize) -> MoveInfo {
    MoveInfo { x, y, user_id: user, game_id: game }
}

/// Pairs two players with fixed ids; player 1 moves first.
fn paired_server() -> Server {
    let mut s = Server::new();
    s.connect_with(1, 10, true);
    s.connect_with(2, 20, false);
    s
}

#[test]
fn first_connect_waits_second_pairs() {
    let mut s = Server::new();
    let a = s.connect();
    assert_eq!(a.connection_state, ConnectionState::WaitingForGame);
    let b = s.connect();
    assert_eq!(b.client_info.game_id, a.client_info.game_id);
    assert_ne!(b.client_info.user_id, a.client_info.user_id);
    match b.connection_state {
        ConnectionState::JoinedGame { turn } => {
            assert!(turn == a.client_info.user_id || turn == b.client_info.user_id)
        }
        ConnectionState::WaitingForGame => panic!("second caller was not paired"),
    }
}

#[test]
fn connect_with_exact_answers() {
    let mut s = Server::new();
    let a = s.connect_with(1, 10, true);
    assert_eq!(
        a,
        ConnectResponse {
            client_info: ClientInfo { user_id: UserId(1), game_id: GameId(10) },
            connection_state: ConnectionState::WaitingForGame,
        }
    );
    let b = s.connect_with(2, 20, false);
    assert_eq!(
        b,
        ConnectResponse {
            client_info: ClientInfo { user_id: UserId(2), game_id: GameId(10) },
            connection_state: ConnectionState::new_joined_game(UserId(1)),
        }
    );
    match s.poll(UserId(2), GameId(10)) {
        Ok(PollResponse::ActiveGame { game }) => {
            assert_eq!(game.active_turn, UserId(1));
            assert_eq!(game.players, [UserId(2), UserId(1)]);
            assert_eq!(game.board, [[None; 3]; 3]);
        }
        other => panic!("unexpected poll answer {:?}", other),
    }
}

#[test]
fn pairing_takes_the_last_waiting_player() {
    let mut s = Server::new();
    s.connect_with(1, 10, true);
    let b = s.connect_with(2, 20, true);
    assert_eq!(b.connection_state, ConnectionState::JoinedGame { turn: UserId(2) });
    s.connect_with(3, 30, true);
    let d = s.connect_with(4, 40, false);
    assert_eq!(d.client_info.game_id, GameId(30));
    assert_eq!(d.connection_state, ConnectionState::JoinedGame { turn: UserId(3) });
}

#[test]
fn stranger_move_is_invalid_player() {
    let mut s = paired_server();
    let r = s.make_move(mv(UserId(7), GameId(10), 0, 0));
    assert_eq!(r, Err(MoveError::InvalidUserId { id: UserId(7) }));
}

#[test]
fn repeated_move_same_cell() {
    let mut s = paired_server();
    assert_eq!(s.make_move(mv(UserId(1), GameId(10), 0, 0)), Ok(MoveResponse));
    assert_eq!(s.make_move(mv(UserId(1), GameId(10), 0, 0)), Err(MoveError::NotYourTurn));
    assert_eq!(
        s.make_move(mv(UserId(2), GameId(10), 0, 0)),
        Err(MoveError::SpotAlreadyTaken { x: 0, y: 0 })
    );
}

#[test]
fn out_of_range_move_is_invalid_index() {
    let mut s = paired_server();
    assert_eq!(s.make_move(mv(UserId(1), GameId(10), 5, 0)), Err(MoveError::InvalidIndex));
    assert_eq!(s.make_move(mv(UserId(1), GameId(10), 0, 3)), Err(MoveError::InvalidIndex));
}

#[test]
fn move_on_unknown_game() {
    let mut s = paired_server();
    assert_eq!(
        s.make_move(mv(UserId(1), GameId(99), 0, 0)),
        Err(MoveError::InvalidGameId { id: GameId(99) })
    );
}

#[test]
fn poll_unknown_player_and_game() {
    let s = paired_server();
    assert_eq!(s.poll(UserId(77), GameId(99)), Err(PollError::BadGameId(GameId(99))));
}

#[test]
fn poll_stranger_on_known_game() {
    let s = paired_server();
    assert_eq!(s.poll(UserId(77), GameId(10)), Err(PollError::BadUserId(UserId(77))));
}

#[test]
fn poll_waiting_player() {
    let mut s = Server::new();
    s.connect_with(5, 50, true);
    assert_eq!(s.poll(UserId(5), GameId(50)), Ok(PollResponse::WaitingForGame));
    assert_eq!(s.poll(UserId(5), GameId(123)), Ok(PollResponse::WaitingForGame));
    assert_eq!(s.poll(UserId(6), GameId(50)), Err(PollError::BadGameId(GameId(50))));
}

#[test]
fn poll_is_repeatable() {
    let mut s = paired_server();
    s.make_move(mv(UserId(1), GameId(10), 1, 2)).unwrap();
    let first = s.poll(UserId(2), GameId(10));
    for _ in 0..5 {
        assert_eq!(s.poll(UserId(2), GameId(10)), first);
    }
    let _ = s.make_move(mv(UserId(1), GameId(10), 0, 0));
    assert_eq!(s.poll(UserId(2), GameId(10)), first);
}

#[test]
fn turn_alternates_only_on_accepted_moves() {
    let mut s = paired_server();
    let turn = |s: &Server| match s.poll(UserId(1), GameId(10)) {
        Ok(PollResponse::ActiveGame { game }) => game.active_turn,
        other => panic!("unexpected poll answer {:?}", other),
    };
    assert_eq!(turn(&s), UserId(1));
    s.make_move(mv(UserId(1), GameId(10), 0, 0)).unwrap();
    assert_eq!(turn(&s), UserId(2));
    assert!(s.make_move(mv(UserId(2), GameId(10), 0, 0)).is_err());
    assert_eq!(turn(&s), UserId(2));
    s.make_move(mv(UserId(2), GameId(10), 2, 2)).unwrap();
    assert_eq!(turn(&s), UserId(1));
}

#[test]
fn occupied_cell_never_changes() {
    let mut s = paired_server();
    s.make_move(mv(UserId(1), GameId(10), 1, 0)).unwrap();
    s.make_move(mv(UserId(2), GameId(10), 0, 1)).unwrap();
    assert_eq!(
        s.make_move(mv(UserId(1), GameId(10), 1, 0)),
        Err(MoveError::SpotAlreadyTaken { x: 1, y: 0 })
    );
    match s.poll(UserId(1), GameId(10)) {
        Ok(PollResponse::ActiveGame { game }) => {
            assert_eq!(game.board[0][1], Some(UserId(1)));
            assert_eq!(game.board[1][0], Some(UserId(2)));
            assert_eq!(game.board[0][0], None);
        }
        other => panic!("unexpected poll answer {:?}", other),
    }
}

#[test]
fn thousand_connects_make_five_hundred_sessions() {
    let mut s = Server::new();
    let mut players: Vec<UserId> = Vec::new();
    let mut games: Vec<GameId> = Vec::new();
    for _ in 0..1000 {
        let r = s.connect();
        assert!(!players.contains(&r.client_info.user_id));
        players.push(r.client_info.user_id);
        if let ConnectionState::JoinedGame { .. } = r.connection_state {
            assert!(!games.contains(&r.client_info.game_id));
            games.push(r.client_info.game_id);
        }
    }
    assert_eq!(games.len(), 500);
    let mut seen: Vec<UserId> = Vec::new();
    for g in &games {
        let mut found = None;
        for p in &players {
            if let Ok(PollResponse::ActiveGame { game }) = s.poll(*p, *g) {
                found = Some(game);
                break;
            }
        }
        let game = found.expect("session not found");
        assert_ne!(game.players[0], game.players[1]);
        assert!(game.players.contains(&game.active_turn));
        for p in game.players {
            assert!(!seen.contains(&p));
            seen.push(p);
        }
    }
    assert_eq!(seen.len(), 1000);
}

#[test]
fn odd_number_of_connects_leaves_one_waiting() {
    let mut s = Server::new();
    let mut last = None;
    for i in 0..5u128 {
        last = Some(s.connect_with(i, 100 + i, i % 2 == 0));
    }
    let last = last.unwrap();
    assert_eq!(last.connection_state, ConnectionState::WaitingForGame);
    assert_eq!(s.poll(UserId(4), GameId(104)), Ok(PollResponse::WaitingForGame));
    assert_eq!(s.poll(UserId(3), GameId(100)), Err(PollError::BadUserId(UserId(3))));
    assert_eq!(s.poll(UserId(3), GameId(999)), Err(PollError::BadGameId(GameId(999))));
}

#[test]
fn game_make_move_flips_turn() {
    let mut g = Game::new(UserId(1), [UserId(1), UserId(2)]);
    assert_eq!(g.make_move(2, 1), Some(()));
    assert_eq!(g.board[1][2], Some(UserId(1)));
    assert_eq!(g.active_turn, UserId(2));
    assert_eq!(g.make_move(0, 0), Some(()));
    assert_eq!(g.board[0][0], Some(UserId(2)));
    assert_eq!(g.active_turn, UserId(1));
}

#[test]
fn game_make_move_without_other_player() {
    let mut g = Game::new(UserId(1), [UserId(1), UserId(1)]);
    assert_eq!(g.make_move(0, 0), None);
    assert_eq!(g.board[0][0], Some(UserId(1)));
    assert_eq!(g.active_turn, UserId(1));
}

#[test]
fn game_apply_move_checks_in_order() {
    let mut g = Game::new(UserId(2), [UserId(1), UserId(2)]);
    assert_eq!(g.apply_move(UserId(9), 7, 7), Err(MoveError::InvalidUserId { id: UserId(9) }));
    assert_eq!(g.apply_move(UserId(1), 7, 7), Err(MoveError::NotYourTurn));
    assert_eq!(g.apply_move(UserId(2), 7, 0), Err(MoveError::InvalidIndex));
    assert_eq!(g.apply_move(UserId(2), 2, 2), Ok(MoveResponse));
    assert_eq!(g.active_turn, UserId(1));
    assert_eq!(g.apply_move(UserId(1), 2, 2), Err(MoveError::SpotAlreadyTaken { x: 2, y: 2 }));
}
