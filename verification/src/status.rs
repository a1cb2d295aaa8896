//! Plain-value models of the two dialects' query responses.

use vstd::prelude::*;

verus! {

/// A Bedrock server's game mode.
#[derive(Clone, Copy, Debug, PartialEq, Eq, Structural)]
pub enum GameMode {
    Survival,
    Creative,
    Hardcore,
    Spectator,
    Adventure,
}

/// What a successful Java-dialect query reports.
#[derive(Clone, Debug)]
pub struct JavaStatus {
    pub game_version: String,
    pub protocol_version: i32,
    pub players_online: u32,
    pub players_maximum: u32,
    pub players: Option<Vec<String>>,
    /// The raw description payload: JSON text of a component tree.
    pub description: String,
    pub map: Option<String>,
    pub game_mode: Option<String>,
    /// The raw icon payload: base64 text behind a data-URI prefix.
    pub favicon: Option<String>,
}

/// What a successful Bedrock-dialect query reports.
#[derive(Clone, Debug)]
pub struct BedrockStatus {
    pub version_name: String,
    pub protocol_version: String,
    /// The server name: a legacy-coded description string.
    pub name: String,
    pub players_online: u32,
    pub players_maximum: u32,
    pub map: Option<String>,
    pub game_mode: Option<GameMode>,
    pub players: Option<Vec<String>>,
}

} // verus!
