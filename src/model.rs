use vstd::prelude::*;

verus! {

/// Lifecycle state of a top-up transaction.
#[derive(Clone, Copy, Debug, PartialEq, Eq, Structural)]
pub enum Status {
    Pending,
    Success,
    Failed,
}

impl Default for Status {
    fn default() -> (r: Status)
        ensures
            r == Status::Pending,
    {
        Status::Pending
    }
}

/// Which kind of record a lookup was about.
#[derive(Clone, Copy, Debug, PartialEq, Eq, Structural)]
pub enum Entity {
    Game,
    TopUp,
}

/// Why a payload was rejected.
#[derive(Clone, Copy, Debug, PartialEq, Eq, Structural)]
pub enum Invalid {
    /// The denomination and price lists differ in length.
    LengthMismatch { nominal_len: usize, harga_len: usize },
    /// The requested denomination is not offered by the game.
    NominalUnavailable { nominal: u64 },
}

#[derive(Clone, Copy, Debug, PartialEq, Eq, Structural)]
pub enum Error {
    NotFound { entity: Entity, id: u64 },
    InvalidInput { reason: Invalid },
    /// No fresh identifier could be issued: the counter is exhausted. Nothing
    /// was changed.
    IdUnavailable,
}

/// A catalog entry: `harga[i]` is the price of denomination `nominal[i]`.
#[derive(Debug, PartialEq, Eq)]
pub struct Game {
    pub id: u64,
    pub name: String,
    pub nominal: Vec<u64>,
    pub harga: Vec<u64>,
}

pub ghost struct GameView {
    pub id: u64,
    pub name: Seq<char>,
    pub nominal: Seq<u64>,
    pub harga: Seq<u64>,
}

impl View for Game {
    type V = GameView;

    open spec fn view(&self) -> GameView {
        GameView { id: self.id, name: self.name@, nominal: self.nominal@, harga: self.harga@ }
    }
}

impl GameView {
    /// Every denomination has exactly one price.
    pub open spec fn wf(self) -> bool {
        self.nominal.len() == self.harga.len()
    }
}

impl Game {
    /// A copy with the same contents.
    pub fn duplicate(&self) -> (r: Game)
        ensures
            r@ == self@,
    {
        let nominal = self.nominal.clone();
        let harga = self.harga.clone();
        proof {
            assert(nominal@ =~= self.nominal@);
            assert(harga@ =~= self.harga@);
        }
        Game { id: self.id, name: self.name.clone(), nominal, harga }
    }
}

/// A purchase of one denomination of a game.
#[derive(Debug, PartialEq, Eq)]
pub struct TopUp {
    pub id: u64,
    pub game_id: u64,
    pub user_id: String,
    pub nominal: u64,
    pub harga: u64,
    pub status: Status,
    pub created_at: u64,
}

pub ghost struct TopUpView {
    pub id: u64,
    pub game_id: u64,
    pub user_id: Seq<char>,
    pub nominal: u64,
    pub harga: u64,
    pub status: Status,
    pub created_at: u64,
}

impl View for TopUp {
    type V = TopUpView;

    open spec fn view(&self) -> TopUpView {
        TopUpView {
            id: self.id,
            game_id: self.game_id,
            user_id: self.user_id@,
            nominal: self.nominal,
            harga: self.harga,
            status: self.status,
            created_at: self.created_at,
        }
    }
}

impl TopUp {
    /// A copy with the same contents.
    pub fn duplicate(&self) -> (r: TopUp)
        ensures
            r@ == self@,
    {
        TopUp {
            id: self.id,
            game_id: self.game_id,
            user_id: self.user_id.clone(),
            nominal: self.nominal,
            harga: self.harga,
            status: self.status,
            created_at: self.created_at,
        }
    }
}

/// Input of `add_game`.
#[derive(Debug, PartialEq, Eq)]
pub struct GamePayload {
    pub name: String,
    pub nominal: Vec<u64>,
    pub harga: Vec<u64>,
}

/// Input of `create_topup`.
#[derive(Debug, PartialEq, Eq)]
pub struct TopUpPayload {
    pub game_id: u64,
    pub user_id: String,
    pub nominal: u64,
}

/// `i` is the first position of `x` in `s`.
pub open spec fn first_position(s: Seq<u64>, x: u64, i: int) -> bool {
    &&& 0 <= i < s.len()
    &&& s[i] == x
    &&& forall|k: int| 0 <= k < i ==> s[k] != x
}

/// The first position of `x` in `s`, if any.
pub fn find_first(s: &Vec<u64>, x: u64) -> (r: Option<usize>)
    ensures
        match r {
            Some(i) => first_position(s@, x, i as int),
            None => !s@.contains(x),
        },
{
    let mut i: usize = 0;
    while i < s.len()
        invariant
            0 <= i <= s.len(),
            forall|k: int| 0 <= k < i ==> s@[k] != x,
        decreases s.len() - i,
    {
        if s[i] == x {
            return Some(i);
        }
        i = i + 1;
    }
    None
}

} // verus!
