use vstd::prelude::*;

use crate::ids::IdGenerator;
use crate::model::{
    find_first, first_position, Entity, Error, Game, GamePayload, GameView, Invalid, Status, TopUp,
    TopUpPayload, TopUpView,
};

verus! {

/// The identifiers of a sequence of games, in order.
pub open spec fn game_ids(games: Seq<GameView>) -> Seq<u64> {
    games.map_values(|g: GameView| g.id)
}

/// The identifiers of a sequence of top-ups, in order.
pub open spec fn topup_ids(topups: Seq<TopUpView>) -> Seq<u64> {
    topups.map_values(|t: TopUpView| t.id)
}

/// Identifiers strictly increase along `ids`, and none exceeds `last`.
pub open spec fn ids_issued_in_order(ids: Seq<u64>, last: u64) -> bool {
    &&& forall|i: int, j: int| 0 <= i < j < ids.len() ==> ids[i] < ids[j]
    &&& forall|i: int| 0 <= i < ids.len() ==> ids[i] <= last
}

/// The catalog holds a game `game_id` whose denominations include `nominal`.
pub open spec fn offers(games: Seq<GameView>, game_id: u64, nominal: u64) -> bool {
    exists|gi: int|
        first_position(game_ids(games), game_id, gi) && (#[trigger] games[gi]).nominal.contains(
            nominal,
        )
}

/// The whole state: the last identifier issued, the catalog and the transactions,
/// each store in storage order (ascending identifier). No identifier is shared
/// between a game and a top-up.
pub ghost struct ServiceView {
    pub last_id: u64,
    pub games: Seq<GameView>,
    pub topups: Seq<TopUpView>,
}

impl ServiceView {
    pub open spec fn wf(self) -> bool {
        &&& ids_issued_in_order(game_ids(self.games), self.last_id)
        &&& ids_issued_in_order(topup_ids(self.topups), self.last_id)
        &&& forall|i: int| 0 <= i < self.games.len() ==> (#[trigger] self.games[i]).wf()
        &&& forall|i: int, j: int|
            0 <= i < self.games.len() && 0 <= j < self.topups.len() ==> (#[trigger] self.games[i]).id
                != (#[trigger] self.topups[j]).id
    }
}

/// The entity service: an identifier generator shared by a catalog of games
/// and a store of top-up transactions. The stores are vectors kept in ascending
/// identifier order, held in heap memory: the records carry no stable-memory
/// encoding of their own.
pub struct Service {
    ids: IdGenerator,
    games: Vec<Game>,
    topups: Vec<TopUp>,
}

impl View for Service {
    type V = ServiceView;

    closed spec fn view(&self) -> ServiceView {
        ServiceView {
            last_id: self.ids@,
            games: self.games@.map_values(|g: Game| g@),
            topups: self.topups@.map_values(|t: TopUp| t@),
        }
    }
}

impl Service {
    pub open spec fn wf(&self) -> bool {
        self@.wf()
    }

    /// A service with empty stores whose identifier counter lives in stable
    /// memory and resumes from the value persisted there; `None` when the
    /// memory cannot hold the counter. Open it once per process: two services
    /// over the same memory would issue the same identifiers.
    pub fn open() -> (r: Option<Service>)
        ensures
            match r {
                Some(s) => s.wf() && s@.games.len() == 0 && s@.topups.len() == 0,
                None => true,
            },
    {
        let ids = match IdGenerator::open() {
            Some(ids) => ids,
            None => {
                return None;
            },
        };
        let r = Service { ids, games: Vec::new(), topups: Vec::new() };
        proof {
            assert(r@.games =~= Seq::<GameView>::empty());
            assert(r@.topups =~= Seq::<TopUpView>::empty());
        }
        Some(r)
    }

    /// The last identifier issued; 0 on memory that has issued none.
    pub fn last_id(&self) -> (r: u64)
        ensures
            r == self@.last_id,
    {
        self.ids.last()
    }

    /// Position of the game with identifier `id` in the catalog.
    fn game_position(&self, id: u64) -> (r: Option<usize>)
        ensures
            match r {
                Some(i) => first_position(game_ids(self@.games), id, i as int),
                None => !game_ids(self@.games).contains(id),
            },
    {
        let mut i: usize = 0;
        while i < self.games.len()
            invariant
                0 <= i <= self.games.len(),
                forall|k: int| 0 <= k < i ==> game_ids(self@.games)[k] != id,
            decreases self.games.len() - i,
        {
            if self.games[i].id == id {
                return Some(i);
            }
            i = i + 1;
        }
        None
    }

    /// Position of the top-up with identifier `id` in the transaction store.
    fn topup_position(&self, id: u64) -> (r: Option<usize>)
        ensures
            match r {
                Some(i) => first_position(topup_ids(self@.topups), id, i as int),
                None => !topup_ids(self@.topups).contains(id),
            },
    {
        let mut i: usize = 0;
        while i < self.topups.len()
            invariant
                0 <= i <= self.topups.len(),
                forall|k: int| 0 <= k < i ==> topup_ids(self@.topups)[k] != id,
            decreases self.topups.len() - i,
        {
            if self.topups[i].id == id {
                return Some(i);
            }
            i = i + 1;
        }
        None
    }

    /// The game with identifier `id`.
    pub fn get_game(&self, id: u64) -> (r: Result<Game, Error>)
        ensures
            match r {
                Ok(g) => exists|i: int|
                    first_position(game_ids(self@.games), id, i) && g@ == self@.games[i],
                Err(e) => !game_ids(self@.games).contains(id) && e == (Error::NotFound {
                    entity: Entity::Game,
                    id,
                }),
            },
    {
        match self.game_position(id) {
            Some(i) => Ok(self.games[i].duplicate()),
            None => Err(Error::NotFound { entity: Entity::Game, id }),
        }
    }

    /// Every game, in storage order.
    pub fn get_all_games(&self) -> (r: Vec<Game>)
        ensures
            r@.map_values(|g: Game| g@) == self@.games,
    {
        let mut r: Vec<Game> = Vec::new();
        let mut i: usize = 0;
        while i < self.games.len()
            invariant
                0 <= i <= self.games.len(),
                r@.map_values(|g: Game| g@) =~= self@.games.take(i as int),
            decreases self.games.len() - i,
        {
            let g = self.games[i].duplicate();
            let ghost before = r@;
            r.push(g);
            proof {
                assert(r@ == before.push(g));
                assert(r@.map_values(|g: Game| g@) =~= before.map_values(|g: Game| g@).push(g@));
                assert(self@.games.take(i + 1) =~= self@.games.take(i as int).push(g@));
            }
            i = i + 1;
        }
        proof {
            assert(self@.games.take(i as int) =~= self@.games);
        }
        r
    }

    /// The top-up with identifier `id`.
    pub fn get_topup(&self, id: u64) -> (r: Result<TopUp, Error>)
        ensures
            match r {
                Ok(t) => exists|i: int|
                    first_position(topup_ids(self@.topups), id, i) && t@ == self@.topups[i],
                Err(e) => !topup_ids(self@.topups).contains(id) && e == (Error::NotFound {
                    entity: Entity::TopUp,
                    id,
                }),
            },
    {
        match self.topup_position(id) {
            Some(i) => Ok(self.topups[i].duplicate()),
            None => Err(Error::NotFound { entity: Entity::TopUp, id }),
        }
    }

    /// Adds a game under a fresh identifier; its denomination and price lists
    /// must have the same length.
    pub fn add_game(&mut self, payload: GamePayload) -> (r: Result<Game, Error>)
        requires
            old(self).wf(),
        ensures
            final(self).wf(),
            payload.nominal@.len() == payload.harga@.len() && old(self)@.last_id < u64::MAX
                ==> r is Ok,
            match r {
                Ok(g) => {
                    &&& payload.nominal@.len() == payload.harga@.len()
                    &&& old(self)@.last_id < u64::MAX
                    &&& g@ == (GameView {
                        id: (old(self)@.last_id + 1) as u64,
                        name: payload.name@,
                        nominal: payload.nominal@,
                        harga: payload.harga@,
                    })
                    &&& final(self)@ == (ServiceView {
                        last_id: g.id,
                        games: old(self)@.games.push(g@),
                        topups: old(self)@.topups,
                    })
                    &&& forall|i: int|
                        0 <= i < old(self)@.games.len() ==> old(self)@.games[i].id < g.id
                    &&& forall|i: int|
                        0 <= i < old(self)@.topups.len() ==> old(self)@.topups[i].id < g.id
                },
                Err(e) => {
                    &&& final(self)@ == old(self)@
                    &&& if payload.nominal@.len() != payload.harga@.len() {
                        e == (Error::InvalidInput {
                            reason: Invalid::LengthMismatch {
                                nominal_len: payload.nominal@.len() as usize,
                                harga_len: payload.harga@.len() as usize,
                            },
                        })
                    } else {
                        old(self)@.last_id == u64::MAX && e == Error::IdUnavailable
                    }
                },
            },
    {
        if payload.nominal.len() != payload.harga.len() {
            return Err(
                Error::InvalidInput {
                    reason: Invalid::LengthMismatch {
                        nominal_len: payload.nominal.len(),
                        harga_len: payload.harga.len(),
                    },
                },
            );
        }
        let ghost pre = self@;
        let id = match self.ids.next() {
            Some(id) => id,
            None => {
                return Err(Error::IdUnavailable);
            },
        };
        let game = Game { id, name: payload.name, nominal: payload.nominal, harga: payload.harga };
        let out = game.duplicate();
        let ghost before = self.games@;
        self.games.push(game);
        proof {
            assert(self.games@ == before.push(game));
            assert(self@.games =~= pre.games.push(game@));
            assert(game_ids(self@.games) =~= game_ids(pre.games).push(id));
            assert forall|i: int| 0 <= i < pre.games.len() implies pre.games[i].id < id by {
                assert(game_ids(pre.games)[i] == pre.games[i].id);
            }
            assert forall|i: int| 0 <= i < pre.topups.len() implies pre.topups[i].id < id by {
                assert(topup_ids(pre.topups)[i] == pre.topups[i].id);
            }
            assert forall|i: int| 0 <= i < self@.games.len() implies (
            #[trigger] self@.games[i]).wf() by {
                if i < pre.games.len() {
                    assert(self@.games[i] == pre.games[i]);
                }
            }
        }
        Ok(out)
    }
    /// Records a purchase of denomination `payload.nominal` of game `payload.game_id`,
    /// priced from the game's price list, pending, created at `now`.
    pub fn create_topup(&mut self, payload: TopUpPayload, now: u64) -> (r: Result<TopUp, Error>)
        requires
            old(self).wf(),
        ensures
            final(self).wf(),
            offers(old(self)@.games, payload.game_id, payload.nominal) && old(self)@.last_id
                < u64::MAX ==> r is Ok,
            match r {
                Ok(t) => old(self)@.last_id < u64::MAX && exists|gi: int, ni: int|
                    {
                        &&& first_position(game_ids(old(self)@.games), payload.game_id, gi)
                        &&& first_position(old(self)@.games[gi].nominal, payload.nominal, ni)
                        &&& t@ == (TopUpView {
                            id: (old(self)@.last_id + 1) as u64,
                            game_id: payload.game_id,
                            user_id: payload.user_id@,
                            nominal: payload.nominal,
                            harga: old(self)@.games[gi].harga[ni],
                            status: Status::Pending,
                            created_at: now,
                        })
                        &&& final(self)@ == (ServiceView {
                            last_id: t.id,
                            games: old(self)@.games,
                            topups: old(self)@.topups.push(t@),
                        })
                    },
                Err(e) => {
                    &&& final(self)@ == old(self)@
                    &&& if offers(old(self)@.games, payload.game_id, payload.nominal) {
                        old(self)@.last_id == u64::MAX && e == Error::IdUnavailable
                    } else if game_ids(old(self)@.games).contains(payload.game_id) {
                        e == (Error::InvalidInput {
                            reason: Invalid::NominalUnavailable { nominal: payload.nominal },
                        })
                    } else {
                        e == (Error::NotFound { entity: Entity::Game, id: payload.game_id })
                    }
                },
            },
    {
        let gi = match self.game_position(payload.game_id) {
            Some(gi) => gi,
            None => {
                return Err(Error::NotFound { entity: Entity::Game, id: payload.game_id });
            },
        };
        proof {
            assert(self@.games[gi as int] == self.games@[gi as int]@);
            assert(self@.games[gi as int].wf());
        }
        let ni = match find_first(&self.games[gi].nominal, payload.nominal) {
            Some(ni) => ni,
            None => {
                proof {
                    assert forall|g2: int|
                        first_position(game_ids(self@.games), payload.game_id, g2) implies !(
                        #[trigger] self@.games[g2]).nominal.contains(payload.nominal) by {
                        if g2 != gi {
                            if g2 < gi {
                                assert(game_ids(self@.games)[g2] != payload.game_id);
                            } else {
                                assert(game_ids(self@.games)[gi as int] != payload.game_id);
                            }
                        }
                    }
                }
                return Err(
                    Error::InvalidInput {
                        reason: Invalid::NominalUnavailable { nominal: payload.nominal },
                    },
                );
            },
        };
        proof {
            assert(self@.games[gi as int].nominal.contains(payload.nominal)) by {
                assert(self@.games[gi as int].nominal[ni as int] == payload.nominal);
            }
            assert(offers(self@.games, payload.game_id, payload.nominal));
        }
        let ghost pre = self@;
        let harga = self.games[gi].harga[ni];
        let id = match self.ids.next() {
            Some(id) => id,
            None => {
                return Err(Error::IdUnavailable);
            },
        };
        let topup = TopUp {
            id,
            game_id: payload.game_id,
            user_id: payload.user_id,
            nominal: payload.nominal,
            harga,
            status: Status::Pending,
            created_at: now,
        };
        let out = topup.duplicate();
        let ghost before = self.topups@;
        self.topups.push(topup);
        proof {
            assert(self.topups@ == before.push(topup));
            assert(self@.topups =~= pre.topups.push(topup@));
            assert(self@.games =~= pre.games);
            assert(topup_ids(self@.topups) =~= topup_ids(pre.topups).push(id));
            assert(first_position(game_ids(pre.games), payload.game_id, gi as int));
            assert forall|k: int| 0 <= k < pre.games.len() implies pre.games[k].id < id by {
                assert(game_ids(pre.games)[k] == pre.games[k].id);
            }
            assert(first_position(pre.games[gi as int].nominal, payload.nominal, ni as int));
        }
        Ok(out)
    }

    /// Replaces the status of top-up `id`, keeping every other field.
    pub fn update_status(&mut self, id: u64, status: Status) -> (r: Result<TopUp, Error>)
        requires
            old(self).wf(),
        ensures
            final(self).wf(),
            match r {
                Ok(t) => exists|i: int|
                    {
                        &&& first_position(topup_ids(old(self)@.topups), id, i)
                        &&& t@ == (TopUpView { status, ..old(self)@.topups[i] })
                        &&& final(self)@ == (ServiceView {
                            topups: old(self)@.topups.update(i, t@),
                            ..old(self)@
                        })
                    },
                Err(e) => {
                    &&& !topup_ids(old(self)@.topups).contains(id)
                    &&& e == (Error::NotFound { entity: Entity::TopUp, id })
                    &&& final(self)@ == old(self)@
                },
            },
    {
        let i = match self.topup_position(id) {
            Some(i) => i,
            None => {
                return Err(Error::NotFound { entity: Entity::TopUp, id });
            },
        };
        let ghost pre = self@;
        let mut topup = self.topups[i].duplicate();
        topup.status = status;
        let out = topup.duplicate();
        self.topups.set(i, topup);
        proof {
            assert(self@.topups =~= pre.topups.update(i as int, topup@));
            assert(self@.games =~= pre.games);
            assert(topup_ids(self@.topups) =~= topup_ids(pre.topups));
        }
        Ok(out)
    }
}

} // verus!
