use vstd::prelude::*;

use crate::downloader::DepotDownloader;
use crate::gameinfo::{Game, GameView};
use crate::gdcrunner::{GDCRunner, texts};
use crate::text::int_decimal;

verus! {

/// Ties a game to the directories it is downloaded into and checked from.
pub struct GDCManager {
    game: Game,
    sourcemod_dir: String,
    downloads_dir: String,
    depotdownloader_path: String,
}

impl GDCManager {
    pub closed spec fn game(&self) -> GameView {
        self.game@
    }

    pub closed spec fn sourcemod_dir(&self) -> Seq<char> {
        self.sourcemod_dir@
    }

    pub closed spec fn downloads_dir(&self) -> Seq<char> {
        self.downloads_dir@
    }

    pub closed spec fn depotdownloader_path(&self) -> Seq<char> {
        self.depotdownloader_path@
    }

    /// A manager for `game` with the given SourceMod checkout, downloads
    /// directory and DepotDownloader installation.
    pub fn new(game: Game, sourcemod_dir: &str, downloads_dir: &str, depotdownloader_path: &str) -> (r: GDCManager)
        ensures
            r.game() == game@,
            r.sourcemod_dir() == sourcemod_dir@,
            r.downloads_dir() == downloads_dir@,
            r.depotdownloader_path() == depotdownloader_path@,
    {
        GDCManager {
            game,
            sourcemod_dir: String::from_str(sourcemod_dir),
            downloads_dir: String::from_str(downloads_dir),
            depotdownloader_path: String::from_str(depotdownloader_path),
        }
    }

    /// The downloader of the managed game into the downloads directory.
    pub fn downloader(&self) -> (r: DepotDownloader)
        ensures
            r.downloads_dir() == self.downloads_dir(),
            r.game() == self.game(),
    {
        DepotDownloader::new(self.downloads_dir.as_str(), self.game.clone())
    }

    /// The runner that checks the given game-data files against the managed game.
    pub fn runner(&self, gamedata_files: Vec<String>) -> (r: GDCRunner)
        ensures
            r.sourcemod() == self.sourcemod_dir(),
            r.gdc_location() == self.sourcemod_dir() + "/tools/gdc-psyfork/Release/gdc"@,
            r.gamedata_files() == texts(gamedata_files@),
            r.download_path() == self.downloads_dir() + "/"@ + int_decimal(self.game().appid as int),
            r.game() == self.game(),
    {
        GDCRunner::from_parts(
            self.game.clone(),
            self.sourcemod_dir.as_str(),
            self.downloads_dir.as_str(),
            gamedata_files,
        )
    }

    /// The game that is managed.
    pub fn managed_game(&self) -> (r: &Game)
        ensures
            r@ == self.game(),
    {
        &self.game
    }

    /// The SourceMod checkout.
    pub fn sourcemod_path(&self) -> (r: &str)
        ensures
            r@ == self.sourcemod_dir(),
    {
        self.sourcemod_dir.as_str()
    }

    /// The directory of the DepotDownloader installation.
    pub fn depot_path(&self) -> (r: &str)
        ensures
            r@ == self.depotdownloader_path(),
    {
        self.depotdownloader_path.as_str()
    }
}

} // verus!
