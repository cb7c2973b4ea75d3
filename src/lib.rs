//! Offline-capable licensing and media cache for a karaoke kiosk: the local
//! store of tracks and activation, the activation reconciler and the media
//! synchronizer, over plain values handed in by the host application.
use vstd::prelude::*;

pub mod ativacao;
pub mod clock;
pub mod codes;
pub mod config;
pub mod musicas;
pub mod remote;
pub mod store;
pub mod sync;
pub mod text;

verus! {

/// What the host keeps for the commands: where its data lives.
#[derive(Clone, Debug)]
pub struct AppState {
    pub data_dir: String,
}

impl AppState {
    pub fn new(data_dir: &str) -> (r: AppState)
        ensures
            r.data_dir@ == data_dir@,
    {
        AppState { data_dir: data_dir.to_string() }
    }
}

} // verus!
