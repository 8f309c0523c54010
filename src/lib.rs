mod ids;
mod laws;
mod model;
mod service;

pub use ids::IdGenerator;
pub use model::{
    find_first, first_position, Entity, Error, Game, GamePayload, GameView, Invalid, Status, TopUp,
    TopUpPayload, TopUpView,
};
pub use service::{game_ids, ids_issued_in_order, offers, topup_ids, Service, ServiceView};
pub use laws::lemma_get_game_after_add_game;
