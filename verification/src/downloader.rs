use vstd::prelude::*;

use crate::gameinfo::{Game, GameView};
use crate::text::{i32_to_decimal, int_decimal, join_path, join_path_spec};

verus! {

/// An error of the game-data checker, carrying its message.
#[derive(Debug)]
pub struct GDCError {
    message: String,
}

impl View for GDCError {
    type V = Seq<char>;

    closed spec fn view(&self) -> Seq<char> {
        self.message@
    }
}

impl Clone for GDCError {
    fn clone(&self) -> (r: Self)
        ensures
            r@ == self@,
    {
        GDCError { message: self.message.clone() }
    }
}

impl GDCError {
    /// An error with the given message.
    pub fn new(message: &str) -> (r: GDCError)
        ensures
            r@ == message@,
    {
        GDCError { message: String::from_str(message) }
    }

    /// The message, as the error displays it.
    pub fn message(&self) -> (r: &str)
        ensures
            r@ == self@,
    {
        self.message.as_str()
    }
}

/// Message of the error given when the download directory can be neither
/// created nor found.
pub open spec fn dir_error_text() -> Seq<char> {
    "Unable to create download directory!"@
}

/// The arguments given to `dotnet` to download every file of an app.
pub open spec fn spawn_args_spec(appid: i32, download_dir: Seq<char>) -> Seq<Seq<char>> {
    seq![
        "DepotDownloader.dll"@,
        "-app"@,
        int_decimal(appid as int),
        "-all-platforms"@,
        "-filelist"@,
        "files.txt"@,
        "-dir"@,
        download_dir,
    ]
}

/// Downloads a game with DepotDownloader into a directory of its own.
pub struct DepotDownloader {
    downloads_dir: String,
    game: Game,
}

impl DepotDownloader {
    /// The directory under which games are downloaded.
    pub closed spec fn downloads_dir(&self) -> Seq<char> {
        self.downloads_dir@
    }

    /// The game to download.
    pub closed spec fn game(&self) -> GameView {
        self.game@
    }

    /// A downloader of `game` into `downloads_dir`.
    pub fn new(downloads_dir: &str, game: Game) -> (r: DepotDownloader)
        ensures
            r.downloads_dir() == downloads_dir@,
            r.game() == game@,
    {
        DepotDownloader { downloads_dir: String::from_str(downloads_dir), game }
    }

    /// The directory that the game is downloaded into: the downloads
    /// directory joined with the game's short name.
    pub fn get_download_path(&self) -> (r: String)
        ensures
            r@ == join_path_spec(self.downloads_dir(), self.game().name),
    {
        join_path(self.downloads_dir.as_str(), self.game.name.as_str())
    }

    /// The app id of the game to download.
    pub fn appid(&self) -> (r: i32)
        ensures
            r == self.game().appid,
    {
        self.game.appid
    }

    /// What creating the download directory comes to: an error only when it
    /// could not be created and does not exist either.
    pub fn check_download_dir(created: bool, exists: bool) -> (r: Result<(), GDCError>)
        ensures
            match r {
                Ok(_) => created || exists,
                Err(e) => !created && !exists && e@ == dir_error_text(),
            },
    {
        if !created && !exists {
            return Err(GDCError::new("Unable to create download directory!"));
        }
        Ok(())
    }

    /// The arguments of the `dotnet` call that downloads app `appid` into `download_dir`.
    pub fn spawn_args(appid: i32, download_dir: &str) -> (r: Vec<String>)
        ensures
            r@.map_values(|s: String| s@) == spawn_args_spec(appid, download_dir@),
    {
        let mut v: Vec<String> = Vec::new();
        v.push(String::from_str("DepotDownloader.dll"));
        v.push(String::from_str("-app"));
        v.push(i32_to_decimal(appid));
        v.push(String::from_str("-all-platforms"));
        v.push(String::from_str("-filelist"));
        v.push(String::from_str("files.txt"));
        v.push(String::from_str("-dir"));
        v.push(String::from_str(download_dir));
        assert(v@.map_values(|s: String| s@) =~= spawn_args_spec(appid, download_dir@));
        v
    }
}

} // verus!
