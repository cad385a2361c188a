//! Omnis's canvas user interface as a verified library: the canvas geometry, the pixel
//! buffer the screens paint into, the widgets the mouse can hit, and the menus as state
//! machines.

pub mod hud;
pub mod layout;
pub mod canvas;
pub mod font;
pub mod text;
pub mod hash;
pub mod raster;
pub mod widget;
pub mod menu;
pub mod panels;
pub mod band;
pub mod screen;
pub mod screens;
pub mod plan;
pub mod actors;
pub mod combat_menu;
pub mod combat_screen;
pub mod sheet_menu;
pub mod sheet_screen;
pub mod debug_menu;
pub mod debug_screen;
pub mod inventory_menu;
pub mod inventory_screen;
pub mod spell_menu;
pub mod ui;
pub mod use_menu;
pub mod creation_menu;
pub mod creation_panel;
pub mod sense_text;
pub mod launch;
pub mod sim;
pub mod input;
pub mod combat_text;
pub mod spell_text;

use vstd::prelude::*;

verus! {

/// What the program was started with.
#[derive(Debug, Clone, PartialEq, Eq)]
pub struct AppConfig {
    /// Pack roots in load order; the last one provides the asset source.
    pub packs: Vec<String>,
    /// World seed for a new game.
    pub seed: u64,
    /// Where the quick save is written and read.
    pub save_path: String,
    /// Skip the menus and start exploring at once.
    pub autostart: bool,
}

impl Default for AppConfig {
    /// The test pack, seed one, the quick save under `.omnis`.
    fn default() -> (r: AppConfig)
        ensures
            r.packs@.len() == 1,
            r.packs@[0]@ == "packs/test"@,
            r.seed == 1,
            r.save_path@ == ".omnis/quick.ron"@,
            !r.autostart,
    {
        let mut packs: Vec<String> = Vec::new();
        packs.push("packs/test".to_owned());
        AppConfig { packs, seed: 1, save_path: ".omnis/quick.ron".to_owned(), autostart: false }
    }
}

} // verus!
