use vstd::prelude::*;

use crate::game::{Game, MoveError, MoveResponse};
use crate::ids::{ClientInfo, GameId, UserId};
use crate::server::{connect_step, move_step, poll_result, ConnectResponse, MoveInfo, ServerView};

verus! {

/// A move keeps a well-formed session well-formed. An accepted move hands
/// the turn to the other player; a rejected one leaves the session as it was.
pub proof fn lemma_turn_alternates(
    pre: Game,
    u: UserId,
    x: usize,
    y: usize,
    r: Result<MoveResponse, MoveError>,
    post: Game,
)
    requires
        pre.wf(),
        Game::move_step(pre, u, x, y, r, post),
    ensures
        post.wf(),
        post.players == pre.players,
        r.is_ok() ==> post.active_turn != pre.active_turn && post.active_turn == pre.other_than(
            pre.active_turn,
        ),
        r.is_err() ==> post == pre,
{
}

/// Once a cell is occupied, no move, accepted or not, changes it.
pub proof fn lemma_cell_stays(
    pre: Game,
    u: UserId,
    x: usize,
    y: usize,
    r: Result<MoveResponse, MoveError>,
    post: Game,
    i: int,
    j: int,
)
    requires
        Game::move_step(pre, u, x, y, r, post),
        0 <= i < 3,
        0 <= j < 3,
        pre.cell(i, j).is_some(),
    ensures
        post.cell(i, j) == pre.cell(i, j),
{
}

/// The player whose turn it is, moving onto an occupied cell, is refused
/// with `SpotAlreadyTaken` at that cell.
pub proof fn lemma_taken_cell_refused(g: Game, x: usize, y: usize)
    requires
        g.wf(),
        x < 3,
        y < 3,
        g.cell(x as int, y as int).is_some(),
    ensures
        g.move_result(g.active_turn, x, y) == Err::<MoveResponse, MoveError>(
            MoveError::SpotAlreadyTaken { x, y },
        ),
{
}

/// On a server, a move request leaves every occupied cell of every session
/// as it was.
pub proof fn lemma_server_cell_stays(
    pre: ServerView,
    info: MoveInfo,
    r: Result<MoveResponse, MoveError>,
    post: ServerView,
    id: u128,
    i: int,
    j: int,
)
    requires
        move_step(pre, info, r, post),
        pre.games.contains_key(id),
        0 <= i < 3,
        0 <= j < 3,
        pre.games[id].cell(i, j).is_some(),
    ensures
        post.games.contains_key(id),
        post.games[id].cell(i, j) == pre.games[id].cell(i, j),
{
    if id == info.game_id.0 {
        lemma_cell_stays(pre.games[id], info.user_id, info.x, info.y, r, post.games[id], i, j);
    }
}

/// A rejected move request leaves every poll answer as it was.
pub proof fn lemma_poll_unchanged_by_rejected_move(
    pre: ServerView,
    info: MoveInfo,
    r: Result<MoveResponse, MoveError>,
    post: ServerView,
    user_id: UserId,
    game_id: GameId,
)
    requires
        move_step(pre, info, r, post),
        r.is_err(),
    ensures
        poll_result(post, user_id, game_id) == poll_result(pre, user_id, game_id),
{
    let id = info.game_id.0;
    if pre.games.contains_key(id) {
        assert(post.games =~= pre.games);
    }
}

/// `views`, `resps` are the states and answers of a run of connects, the
/// `i`-th made with the draw `draws[i]` (new player id, new game id, whether
/// the new player moves first).
pub open spec fn connect_run(
    views: Seq<ServerView>,
    draws: Seq<(u128, u128, bool)>,
    resps: Seq<ConnectResponse>,
) -> bool {
    &&& views.len() == draws.len() + 1
    &&& resps.len() == draws.len()
    &&& forall|i: int|
        0 <= i < draws.len() ==> connect_step(
            #[trigger] views[i],
            draws[i].0,
            draws[i].1,
            draws[i].2,
            views[i + 1],
            resps[i],
        )
}

/// No two draws share a player id or a game id.
pub open spec fn fresh_draws(draws: Seq<(u128, u128, bool)>) -> bool {
    forall|i: int, j: int|
        0 <= i < draws.len() && 0 <= j < draws.len() && i != j ==> #[trigger] draws[i].0
            != #[trigger] draws[j].0 && draws[i].1 != draws[j].1
}

/// Session `key` of `v` was opened by the first `k` connects of the run:
/// it pairs draw `2i + 1` with draw `2i` and is stored under the game id of
/// draw `2i`.
spec fn opened_by_run(v: ServerView, draws: Seq<(u128, u128, bool)>, k: int, key: u128) -> bool {
    exists|i: int|
        0 <= i && 2 * i + 1 < k && key == (#[trigger] draws[2 * i]).1
            && v.games[key].players@ == seq![UserId(draws[2 * i + 1].0), UserId(draws[2 * i].0)]
            && v.games[key].is_player(v.games[key].active_turn)
}

/// The state after the first `k` connects of a run that started in `v0`
/// with nobody waiting: the sessions of `v0` are kept, the new ones pair
/// draws `2i` and `2i + 1`, and the last draw waits when `k` is odd.
spec fn paired_up(v0: ServerView, v: ServerView, draws: Seq<(u128, u128, bool)>, k: int) -> bool {
    &&& v.games.dom().finite()
    &&& v.games.dom().len() == v0.games.dom().len() + k / 2
    &&& k % 2 == 0 ==> v.waiting.len() == 0
    &&& k % 2 == 1 ==> v.waiting == seq![
        ClientInfo { user_id: UserId(draws[k - 1].0), game_id: GameId(draws[k - 1].1) },
    ]
    &&& forall|key: u128|
        #[trigger] v.games.contains_key(key) ==> if v0.games.contains_key(key) {
            v.games[key] == v0.games[key]
        } else {
            opened_by_run(v, draws, k, key)
        }
    &&& forall|key: u128| #[trigger] v0.games.contains_key(key) ==> v.games.contains_key(key)
}

/// No draw's game id is already a session of `v0`.
pub open spec fn new_game_ids(v0: ServerView, draws: Seq<(u128, u128, bool)>) -> bool {
    forall|i: int| 0 <= i < draws.len() ==> !v0.games.contains_key(#[trigger] draws[i].1)
}

/// A connect with nobody waiting: the new player waits.
proof fn lemma_step_wait(
    v0: ServerView,
    pre: ServerView,
    post: ServerView,
    draws: Seq<(u128, u128, bool)>,
    r: ConnectResponse,
    k: int,
)
    requires
        1 <= k <= draws.len(),
        (k - 1) % 2 == 0,
        paired_up(v0, pre, draws, k - 1),
        connect_step(pre, draws[k - 1].0, draws[k - 1].1, draws[k - 1].2, post, r),
    ensures
        paired_up(v0, post, draws, k),
{
    assert(k % 2 == 1 && k / 2 == (k - 1) / 2);
    assert forall|key: u128| #[trigger] post.games.contains_key(key) && !v0.games.contains_key(key)
        implies opened_by_run(post, draws, k, key) by {
        assert(opened_by_run(pre, draws, k - 1, key));
        let i = choose|i: int|
            0 <= i && 2 * i + 1 < k - 1 && key == (#[trigger] draws[2 * i]).1
                && pre.games[key].players@ == seq![UserId(draws[2 * i + 1].0), UserId(draws[2 * i].0)]
                && pre.games[key].is_player(pre.games[key].active_turn);
        assert(2 * i + 1 < k);
    }
}

/// A connect with one player waiting: the two are paired in a new session.
proof fn lemma_step_pair(
    v0: ServerView,
    pre: ServerView,
    post: ServerView,
    draws: Seq<(u128, u128, bool)>,
    r: ConnectResponse,
    k: int,
)
    requires
        2 <= k <= draws.len(),
        (k - 1) % 2 == 1,
        paired_up(v0, pre, draws, k - 1),
        connect_step(pre, draws[k - 1].0, draws[k - 1].1, draws[k - 1].2, post, r),
        fresh_draws(draws),
        new_game_ids(v0, draws),
    ensures
        paired_up(v0, post, draws, k),
{
    assert(k % 2 == 0 && k / 2 == (k - 1) / 2 + 1);
    let id = draws[k - 2].1;
    assert(pre.waiting.last().game_id.0 == id);
    assert(!v0.games.contains_key(id));
    assert(!pre.games.contains_key(id)) by {
        if pre.games.contains_key(id) {
            assert(opened_by_run(pre, draws, k - 1, id));
            let i = choose|i: int|
                0 <= i && 2 * i + 1 < k - 1 && id == (#[trigger] draws[2 * i]).1
                    && pre.games[id].players@ == seq![UserId(draws[2 * i + 1].0), UserId(draws[2 * i].0)]
                    && pre.games[id].is_player(pre.games[id].active_turn);
            assert(draws[2 * i].1 != draws[k - 2].1);
        }
    }
    assert(post.games.dom() =~= pre.games.dom().insert(id));
    assert(post.waiting =~= Seq::<ClientInfo>::empty());
    assert forall|key: u128| #[trigger] post.games.contains_key(key) && !v0.games.contains_key(key)
        implies opened_by_run(post, draws, k, key) by {
        if key == id {
            let i = (k - 2) / 2;
            assert(2 * i == k - 2);
            assert(post.games[key].players@ == seq![UserId(draws[2 * i + 1].0), UserId(draws[2 * i].0)]);
        } else {
            assert(pre.games.contains_key(key));
            assert(opened_by_run(pre, draws, k - 1, key));
            let i = choose|i: int|
                0 <= i && 2 * i + 1 < k - 1 && key == (#[trigger] draws[2 * i]).1
                    && pre.games[key].players@ == seq![UserId(draws[2 * i + 1].0), UserId(draws[2 * i].0)]
                    && pre.games[key].is_player(pre.games[key].active_turn);
            assert(2 * i + 1 < k);
        }
    }
    assert forall|key: u128| #[trigger] post.games.contains_key(key) && v0.games.contains_key(key)
        implies post.games[key] == v0.games[key] by {
        assert(key != id);
        assert(pre.games.contains_key(key));
    }
}

proof fn lemma_run_prefix(
    views: Seq<ServerView>,
    draws: Seq<(u128, u128, bool)>,
    resps: Seq<ConnectResponse>,
    k: int,
)
    requires
        connect_run(views, draws, resps),
        views[0].waiting.len() == 0,
        views[0].games.dom().finite(),
        fresh_draws(draws),
        new_game_ids(views[0], draws),
        0 <= k <= draws.len(),
    ensures
        paired_up(views[0], views[k], draws, k),
    decreases k,
{
    if k > 0 {
        lemma_run_prefix(views, draws, resps, k - 1);
        assert(connect_step(views[k - 1], draws[k - 1].0, draws[k - 1].1, draws[k - 1].2, views[k], resps[k - 1]));
        if (k - 1) % 2 == 0 {
            lemma_step_wait(views[0], views[k - 1], views[k], draws, resps[k - 1], k);
        } else {
            lemma_step_pair(views[0], views[k - 1], views[k], draws, resps[k - 1], k);
        }
    }
}

/// A run of `n` connects that starts with nobody waiting, each with a fresh
/// player id and a game id not yet in use, opens `n / 2` new sessions and
/// leaves `n % 2` callers waiting; the sessions already there are kept. Each
/// new session has two distinct players, one of whom has the turn, and no
/// player is in two new sessions.
pub proof fn lemma_connects_pair_up(
    views: Seq<ServerView>,
    draws: Seq<(u128, u128, bool)>,
    resps: Seq<ConnectResponse>,
)
    requires
        connect_run(views, draws, resps),
        views[0].waiting.len() == 0,
        views[0].games.dom().finite(),
        fresh_draws(draws),
        new_game_ids(views[0], draws),
    ensures
        views.last().games.dom().finite(),
        views.last().games.dom().len() == views[0].games.dom().len() + draws.len() / 2,
        views.last().waiting.len() == draws.len() % 2,
        forall|key: u128| #[trigger]
            views[0].games.contains_key(key) ==> views.last().games.contains_key(key)
                && views.last().games[key] == views[0].games[key],
        forall|key: u128| #[trigger]
            views.last().games.contains_key(key) && !views[0].games.contains_key(key)
                ==> views.last().games[key].wf(),
        forall|k1: u128, k2: u128, u: UserId|
            #![trigger views.last().games[k1].is_player(u), views.last().games[k2].is_player(u)]
            views.last().games.contains_key(k1) && !views[0].games.contains_key(k1)
                && views.last().games.contains_key(k2) && !views[0].games.contains_key(k2)
                && views.last().games[k1].is_player(u) && views.last().games[k2].is_player(u)
                ==> k1 == k2,
{
    let n = draws.len() as int;
    lemma_run_prefix(views, draws, resps, n);
    let v0 = views[0];
    let v = views[n];
    assert forall|key: u128| #[trigger] v.games.contains_key(key) && !v0.games.contains_key(key)
        implies v.games[key].wf() by {
        assert(opened_by_run(v, draws, n, key));
        let i = choose|i: int|
            0 <= i && 2 * i + 1 < n && key == (#[trigger] draws[2 * i]).1
                && v.games[key].players@ == seq![UserId(draws[2 * i + 1].0), UserId(draws[2 * i].0)]
                && v.games[key].is_player(v.games[key].active_turn);
        assert(draws[2 * i + 1].0 != draws[2 * i].0);
    }
    assert forall|k1: u128, k2: u128, u: UserId|
        v.games.contains_key(k1) && !v0.games.contains_key(k1) && v.games.contains_key(k2)
            && !v0.games.contains_key(k2) && v.games[k1].is_player(u)
            && v.games[k2].is_player(u) implies k1 == k2 by {
        assert(opened_by_run(v, draws, n, k1));
        assert(opened_by_run(v, draws, n, k2));
        let i1 = choose|i: int|
            0 <= i && 2 * i + 1 < n && k1 == (#[trigger] draws[2 * i]).1
                && v.games[k1].players@ == seq![UserId(draws[2 * i + 1].0), UserId(draws[2 * i].0)]
                && v.games[k1].is_player(v.games[k1].active_turn);
        let i2 = choose|i: int|
            0 <= i && 2 * i + 1 < n && k2 == (#[trigger] draws[2 * i]).1
                && v.games[k2].players@ == seq![UserId(draws[2 * i + 1].0), UserId(draws[2 * i].0)]
                && v.games[k2].is_player(v.games[k2].active_turn);
        if i1 != i2 {
            assert(draws[2 * i1].0 != draws[2 * i2].0);
            assert(draws[2 * i1 + 1].0 != draws[2 * i2].0);
            assert(draws[2 * i1].0 != draws[2 * i2 + 1].0);
            assert(draws[2 * i1 + 1].0 != draws[2 * i2 + 1].0);
        }
    }
}

} // verus!
