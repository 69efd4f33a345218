use vstd::prelude::*;

use crate::gameinfo::{Game, GameView, find_first, lemma_find_first_at, lemma_find_first_none};
use crate::text::{
    after_last, concat2, concat3, i32_to_decimal, int_decimal, join_path, join_path_spec,
    last_index_of, lemma_last_index_of, replace_all, replace_all_spec,
};

verus! {

/// A game-data file to check: given by a path under SourceMod's `gamedata`
/// directory, or else by a URL to download it from.
#[derive(Debug)]
pub struct GameData {
    pub appid: i32,
    pub url: String,
    pub path: String,
}

/// Entries with neither a path nor a URL holding a '/' cannot be loaded.
pub open spec fn gamedata_loadable(path: Seq<char>, url: Seq<char>) -> bool {
    path.len() > 0 || (url.len() > 0 && last_index_of(url, '/') >= 0)
}

/// Where a game-data file comes from.
pub enum GamedataSource {
    /// A file of the SourceMod checkout.
    Local { path: String },
    /// A file to download from `url`, saved as `write_path`.
    Remote { url: String, file_name: String, write_path: String },
}

/// The last part of a URL: what follows its last '/'.
pub open spec fn url_file_name(url: Seq<char>) -> Seq<char> {
    url.skip(last_index_of(url, '/') + 1)
}

/// One entry of a directory walk: the file's name and its full path.
pub struct WalkEntry {
    pub file_name: String,
    pub path: String,
}

pub struct WalkEntryView {
    pub file_name: Seq<char>,
    pub path: Seq<char>,
}

impl View for WalkEntry {
    type V = WalkEntryView;

    open spec fn view(&self) -> WalkEntryView {
        WalkEntryView { file_name: self.file_name@, path: self.path@ }
    }
}

pub open spec fn named(name: Seq<char>) -> spec_fn(WalkEntryView) -> bool {
    |e: WalkEntryView| e.file_name == name
}

/// The path of the first walked file called `name`; empty when there is none.
pub open spec fn first_path(entries: Seq<WalkEntryView>, name: Seq<char>) -> Seq<char> {
    match find_first(entries, named(name)) {
        Some(e) => e.path,
        None => Seq::empty(),
    }
}

/// The dedicated-server variant of a library name: every ".so" becomes "_srv.so".
pub open spec fn srv_name(filename: Seq<char>) -> Seq<char> {
    replace_all_spec(filename, ".so"@, "_srv.so"@)
}

/// The binary that `find_binary` picks: with `try_srv`, the server variant
/// when one is found, and otherwise the file itself; empty when not found.
pub open spec fn find_binary_spec(entries: Seq<WalkEntryView>, filename: Seq<char>, try_srv: bool) -> Seq<char> {
    if try_srv && first_path(entries, srv_name(filename)).len() > 0 {
        first_path(entries, srv_name(filename))
    } else {
        first_path(entries, filename)
    }
}

/// The four game binaries that gdc is pointed at.
pub struct BinarySet {
    pub lin_server: String,
    pub win_server: String,
    pub lin_engine: String,
    pub win_engine: String,
}

/// One run of gdc: the program, its library path and its arguments.
pub struct GdcInvocation {
    pub program: String,
    pub ld_library_path: String,
    pub args: Vec<String>,
}

/// The arguments of gdc for one game-data file.
pub open spec fn gdc_args_spec(
    engine: Seq<char>,
    gamedir: Seq<char>,
    file: Seq<char>,
    bins: (Seq<char>, Seq<char>, Seq<char>, Seq<char>),
    sourcemod: Seq<char>,
) -> Seq<Seq<char>> {
    seq![
        "-e"@, engine,
        "-g"@, gamedir,
        "-f"@, file,
        "-b"@, bins.0,
        "-w"@, bins.1,
        "-x"@, bins.2,
        "-y"@, bins.3,
        "-s"@, sourcemod + "/tools/gdc-psyfork/symbols.txt"@,
    ]
}

pub open spec fn texts(v: Seq<String>) -> Seq<Seq<char>> {
    v.map_values(|s: String| s@)
}

/// Runs the game-data checker (gdc) over a set of game-data files.
pub struct GDCRunner {
    sourcemod: String,
    gdc_location: String,
    gamedata_files: Vec<String>,
    download_path: String,
    game: Game,
}

impl GDCRunner {
    pub closed spec fn sourcemod(&self) -> Seq<char> {
        self.sourcemod@
    }

    pub closed spec fn gdc_location(&self) -> Seq<char> {
        self.gdc_location@
    }

    pub closed spec fn gamedata_files(&self) -> Seq<Seq<char>> {
        texts(self.gamedata_files@)
    }

    pub closed spec fn download_path(&self) -> Seq<char> {
        self.download_path@
    }

    pub closed spec fn game(&self) -> GameView {
        self.game@
    }

    /// Where the game-data entry `data` is read from: a path under
    /// `<sourcemod>/gamedata/` when it names one, else its URL, whose last part
    /// is saved under `gamedata/`.
    pub fn gamedata_source(sourcemod: &str, data: &GameData) -> (r: GamedataSource)
        requires
            gamedata_loadable(data.path@, data.url@),
        ensures
            data.path@.len() > 0 ==> (r matches GamedataSource::Local { path } && path@
                == sourcemod@ + "/gamedata/"@ + data.path@),
            data.path@.len() == 0 ==> (r matches GamedataSource::Remote { url, file_name, write_path }
                && url@ == data.url@ && file_name@ == url_file_name(data.url@) && write_path@
                == "gamedata/"@ + url_file_name(data.url@)),
    {
        if data.path.as_str().unicode_len() > 0 {
            let path = concat3(sourcemod, "/gamedata/", data.path.as_str());
            return GamedataSource::Local { path };
        }
        let url = data.url.clone();
        match after_last(url.as_str(), '/') {
            Some(file_name) => {
                let write_path = concat2("gamedata/", file_name.as_str());
                GamedataSource::Remote { url, file_name, write_path }
            },
            None => {
                // the requires rules this out: the URL holds a '/'
                GamedataSource::Remote { url: String::new(), file_name: String::new(), write_path: String::new() }
            },
        }
    }

    /// A runner for `game`, with SourceMod at `sourcemod`, the game downloaded
    /// under `dl_path/<appid>` and the given game-data files.
    pub fn from_parts(game: Game, sourcemod: &str, dl_path: &str, gamedata_files: Vec<String>) -> (r: GDCRunner)
        ensures
            r.sourcemod() == sourcemod@,
            r.gdc_location() == sourcemod@ + "/tools/gdc-psyfork/Release/gdc"@,
            r.gamedata_files() == texts(gamedata_files@),
            r.download_path() == dl_path@ + "/"@ + int_decimal(game.appid as int),
            r.game() == game@,
    {
        let appid = i32_to_decimal(game.appid);
        GDCRunner {
            sourcemod: String::from_str(sourcemod),
            gdc_location: concat2(sourcemod, "/tools/gdc-psyfork/Release/gdc"),
            gamedata_files,
            download_path: concat3(dl_path, "/", appid.as_str()),
            game,
        }
    }

    /// The path of the first walked file named `name`, or an empty string.
    fn first_path_of(entries: &Vec<WalkEntry>, name: &str) -> (r: String)
        ensures
            r@ == first_path(entries@.map_values(|e: WalkEntry| e@), name@),
    {
        let ghost ev = entries@.map_values(|e: WalkEntry| e@);
        let mut i: usize = 0;
        assert(ev.skip(0) =~= ev);
        while i < entries.len()
            invariant
                i <= entries@.len(),
                ev == entries@.map_values(|e: WalkEntry| e@),
                find_first(ev, named(name@)) == find_first(ev.skip(i as int), named(name@)),
            decreases entries@.len() - i,
        {
            assert(ev.skip(i as int)[0] == ev[i as int]);
            assert(ev.skip(i as int).drop_first() =~= ev.skip(i + 1));
            if crate::text::text_eq(entries[i].file_name.as_str(), name) {
                return entries[i].path.clone();
            }
            i = i + 1;
        }
        assert(ev.skip(i as int) =~= Seq::<WalkEntryView>::empty());
        String::new()
    }

    /// The path of the binary `filename` among the walked files of the
    /// download: with `try_srv`, its "_srv" variant is preferred when present.
    /// Empty when nothing matches.
    pub fn find_binary(&self, entries: &Vec<WalkEntry>, filename: &str, try_srv: bool) -> (r: String)
        ensures
            r@ == find_binary_spec(entries@.map_values(|e: WalkEntry| e@), filename@, try_srv),
    {
        if try_srv {
            proof {
                reveal_strlit(".so");
            }
            let srv = replace_all(filename, ".so", "_srv.so");
            let res = Self::first_path_of(entries, srv.as_str());
            if res.as_str().unicode_len() > 0 {
                return res;
            }
        }
        Self::first_path_of(entries, filename)
    }

    /// The four binaries that gdc needs, found among the walked files.
    pub fn find_binaries(&self, entries: &Vec<WalkEntry>) -> (r: BinarySet)
        ensures
            r.lin_server@ == find_binary_spec(entries@.map_values(|e: WalkEntry| e@), "server.so"@, true),
            r.win_server@ == find_binary_spec(entries@.map_values(|e: WalkEntry| e@), "server.dll"@, false),
            r.lin_engine@ == find_binary_spec(entries@.map_values(|e: WalkEntry| e@), "engine.so"@, true),
            r.win_engine@ == find_binary_spec(entries@.map_values(|e: WalkEntry| e@), "engine.dll"@, false),
    {
        BinarySet {
            lin_server: self.find_binary(entries, "server.so", true),
            win_server: self.find_binary(entries, "server.dll", false),
            lin_engine: self.find_binary(entries, "engine.so", true),
            win_engine: self.find_binary(entries, "engine.dll", false),
        }
    }

    /// The library path that gdc runs with, for the working directory `cwd`:
    /// the download's `bin`, the game directory's `bin`, then `/usr/lib`.
    pub fn ld_library_path(&self, cwd: &str) -> (r: String)
        ensures
            r@ == join_path_spec(cwd@, join_path_spec(self.download_path(), "bin"@)) + ":"@
                + join_path_spec(cwd@, join_path_spec(join_path_spec(self.download_path(), self.game().gamedir), "bin"@))
                + ":/usr/lib"@,
    {
        let game_dir = join_path(self.download_path.as_str(), self.game.gamedir);
        let game_bin = join_path(game_dir.as_str(), "bin");
        let libpath1 = join_path(cwd, game_bin.as_str());
        let dl_bin = join_path(self.download_path.as_str(), "bin");
        let libpath2 = join_path(cwd, dl_bin.as_str());
        let head = concat3(libpath2.as_str(), ":", libpath1.as_str());
        concat2(head.as_str(), ":/usr/lib")
    }

    /// The gdc arguments that check `file` against the given binaries.
    pub fn gdc_args(&self, file: &str, bins: &BinarySet) -> (r: Vec<String>)
        ensures
            texts(r@) == gdc_args_spec(
                self.game().engine,
                self.game().gamedir,
                file@,
                (bins.lin_server@, bins.win_server@, bins.lin_engine@, bins.win_engine@),
                self.sourcemod(),
            ),
    {
        let mut v: Vec<String> = Vec::new();
        v.push(String::from_str("-e"));
        v.push(String::from_str(self.game.engine));
        v.push(String::from_str("-g"));
        v.push(String::from_str(self.game.gamedir));
        v.push(String::from_str("-f"));
        v.push(String::from_str(file));
        v.push(String::from_str("-b"));
        v.push(bins.lin_server.clone());
        v.push(String::from_str("-w"));
        v.push(bins.win_server.clone());
        v.push(String::from_str("-x"));
        v.push(bins.lin_engine.clone());
        v.push(String::from_str("-y"));
        v.push(bins.win_engine.clone());
        v.push(String::from_str("-s"));
        v.push(concat2(self.sourcemod.as_str(), "/tools/gdc-psyfork/symbols.txt"));
        assert(texts(v@) =~= gdc_args_spec(
            self.game().engine,
            self.game().gamedir,
            file@,
            (bins.lin_server@, bins.win_server@, bins.lin_engine@, bins.win_engine@),
            self.sourcemod(),
        ));
        v
    }

    /// One gdc invocation per game-data file, in order.
    pub fn plan_runs(&self, cwd: &str, bins: &BinarySet) -> (r: Vec<GdcInvocation>)
        ensures
            r@.len() == self.gamedata_files().len(),
            forall|i: int|
                0 <= i < r@.len() ==> {
                    &&& (#[trigger] r@[i]).program@ == self.gdc_location()
                    &&& r@[i].ld_library_path@ == join_path_spec(cwd@, join_path_spec(self.download_path(), "bin"@)) + ":"@
                        + join_path_spec(cwd@, join_path_spec(join_path_spec(self.download_path(), self.game().gamedir), "bin"@))
                        + ":/usr/lib"@
                    &&& texts(r@[i].args@) == gdc_args_spec(
                        self.game().engine,
                        self.game().gamedir,
                        self.gamedata_files()[i],
                        (bins.lin_server@, bins.win_server@, bins.lin_engine@, bins.win_engine@),
                        self.sourcemod(),
                    )
                },
    {
        let mut r: Vec<GdcInvocation> = Vec::new();
        let mut i: usize = 0;
        while i < self.gamedata_files.len()
            invariant
                i <= self.gamedata_files@.len(),
                r@.len() == i,
                forall|k: int|
                    0 <= k < i ==> {
                        &&& (#[trigger] r@[k]).program@ == self.gdc_location()
                        &&& r@[k].ld_library_path@ == join_path_spec(cwd@, join_path_spec(self.download_path(), "bin"@)) + ":"@
                            + join_path_spec(cwd@, join_path_spec(join_path_spec(self.download_path(), self.game().gamedir), "bin"@))
                            + ":/usr/lib"@
                        &&& texts(r@[k].args@) == gdc_args_spec(
                            self.game().engine,
                            self.game().gamedir,
                            self.gamedata_files()[k],
                            (bins.lin_server@, bins.win_server@, bins.lin_engine@, bins.win_engine@),
                            self.sourcemod(),
                        )
                    },
            decreases self.gamedata_files@.len() - i,
        {
            let args = self.gdc_args(self.gamedata_files[i].as_str(), bins);
            let inv = GdcInvocation {
                program: self.gdc_location.clone(),
                ld_library_path: self.ld_library_path(cwd),
                args,
            };
            r.push(inv);
            i = i + 1;
        }
        r
    }

    /// The game-data files that are checked.
    pub fn gamedata_file_list(&self) -> (r: &Vec<String>)
        ensures
            texts(r@) == self.gamedata_files(),
    {
        &self.gamedata_files
    }

    /// The gdc program that is run.
    pub fn gdc_program(&self) -> (r: &str)
        ensures
            r@ == self.gdc_location(),
    {
        self.gdc_location.as_str()
    }

    /// The directory that holds the downloaded game.
    pub fn download_dir(&self) -> (r: &str)
        ensures
            r@ == self.download_path(),
    {
        self.download_path.as_str()
    }
}


/// With `try_srv`, the "_srv" variant of the file (every ".so" of its name
/// replaced by "_srv.so") is looked for on its own: when the walk holds such a
/// file, the path of the first one is the answer, whatever else the walk holds
/// (in particular whether or not a file of the plain name exists).
pub proof fn law_find_binary_takes_srv_variant(entries: Seq<WalkEntryView>, filename: Seq<char>, k: int)
    requires
        0 <= k < entries.len(),
        entries[k].file_name == replace_all_spec(filename, ".so"@, "_srv.so"@),
        forall|j: int|
            0 <= j < k ==> (#[trigger] entries[j]).file_name != replace_all_spec(
                filename,
                ".so"@,
                "_srv.so"@,
            ),
        entries[k].path.len() > 0,
    ensures
        find_binary_spec(entries, filename, true) == entries[k].path,
{
    lemma_find_first_at(entries, named(srv_name(filename)), k);
}

/// Without `try_srv`, or when the walk holds no "_srv" variant, the answer is
/// the path of the first walked file with exactly the given name, and empty
/// when there is none.
pub proof fn law_find_binary_plain(entries: Seq<WalkEntryView>, filename: Seq<char>, try_srv: bool)
    requires
        try_srv ==> forall|j: int|
            0 <= j < entries.len() ==> (#[trigger] entries[j]).file_name != replace_all_spec(
                filename,
                ".so"@,
                "_srv.so"@,
            ),
    ensures
        forall|k: int|
            0 <= k < entries.len() && (#[trigger] entries[k]).file_name == filename && (forall|j: int|
                0 <= j < k ==> entries[j].file_name != filename) ==> find_binary_spec(
                entries,
                filename,
                try_srv,
            ) == entries[k].path,
        (forall|j: int| 0 <= j < entries.len() ==> (#[trigger] entries[j]).file_name != filename)
            ==> find_binary_spec(entries, filename, try_srv).len() == 0,
{
    if try_srv {
        lemma_find_first_none(entries, named(srv_name(filename)));
    }
    assert forall|k: int|
        0 <= k < entries.len() && (#[trigger] entries[k]).file_name == filename && (forall|j: int|
            0 <= j < k ==> entries[j].file_name != filename) implies find_binary_spec(
        entries,
        filename,
        try_srv,
    ) == entries[k].path by {
        lemma_find_first_at(entries, named(filename), k);
    }
    if forall|j: int| 0 <= j < entries.len() ==> (#[trigger] entries[j]).file_name != filename {
        lemma_find_first_none(entries, named(filename));
    }
}


/// The file name of a URL holding a '/' is what follows its last '/': the URL
/// is some prefix ending in '/' followed by the file name, and the file name
/// holds no '/'.
pub proof fn law_url_file_name(url: Seq<char>)
    requires
        exists|i: int| 0 <= i < url.len() && url[i] == '/',
    ensures
        ({
            let f = url_file_name(url);
            &&& f.len() < url.len()
            &&& url[url.len() - f.len() - 1] == '/'
            &&& url.skip(url.len() - f.len()) == f
            &&& forall|j: int| 0 <= j < f.len() ==> f[j] != '/'
        }),
{
    lemma_last_index_of(url, '/');
    let k = last_index_of(url, '/');
    let w = choose|i: int| 0 <= i < url.len() && url[i] == '/';
    assert(k >= 0) by {
        if k < 0 {
            assert(url[w] != '/');
        }
    }
    let f = url_file_name(url);
    assert(f.len() == url.len() - k - 1);
    assert(url.skip(url.len() - f.len()) =~= f);
    assert forall|j: int| 0 <= j < f.len() implies f[j] != '/' by {
        assert(f[j] == url[k + 1 + j]);
    }
}

} // verus!
