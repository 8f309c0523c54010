use vstd::prelude::*;

use crate::model::{first_position, GameView};
use crate::service::{game_ids, ServiceView};

verus! {

/// A game added under the next identifier is found again, unchanged: after
/// `add_game` appends `g` to a well-formed state, `get_game(g.id)` succeeds and
/// the game at the first position of `g.id` is `g` itself.
pub proof fn lemma_get_game_after_add_game(before: ServiceView, g: GameView)
    requires
        before.wf(),
        g.id == before.last_id + 1,
    ensures
        ({
            let after = ServiceView {
                last_id: g.id,
                games: before.games.push(g),
                topups: before.topups,
            };
            &&& first_position(game_ids(after.games), g.id, before.games.len() as int)
            &&& forall|i: int| #[trigger]
                first_position(game_ids(after.games), g.id, i) ==> after.games[i] == g
        }),
{
    let games = before.games.push(g);
    let ids = game_ids(games);
    let n = before.games.len() as int;
    assert(ids[n] == g.id);
    assert forall|k: int| 0 <= k < n implies ids[k] != g.id by {
        assert(ids[k] == game_ids(before.games)[k]);
    }
    assert(first_position(ids, g.id, n));
    assert forall|i: int| #[trigger] first_position(ids, g.id, i) implies games[i] == g by {
        if i < n {
            assert(ids[i] == game_ids(before.games)[i]);
        }
    }
}

} // verus!
