use vstd::prelude::*;

use crate::text::text_eq;

verus! {

/// A game that the checker knows how to download and test.
pub struct Game {
    pub appid: i32,
    pub name: String,
    pub gamedir: &'static str,
    pub engine: &'static str,
}

/// What a [`Game`] holds, as mathematical values.
pub struct GameView {
    pub appid: i32,
    pub name: Seq<char>,
    pub gamedir: Seq<char>,
    pub engine: Seq<char>,
}

impl View for Game {
    type V = GameView;

    open spec fn view(&self) -> GameView {
        GameView { appid: self.appid, name: self.name@, gamedir: self.gamedir@, engine: self.engine@ }
    }
}

impl Clone for Game {
    fn clone(&self) -> (r: Self)
        ensures
            r == *self,
    {
        Game { appid: self.appid, name: self.name.clone(), gamedir: self.gamedir, engine: self.engine }
    }
}

/// The first element of `s` that satisfies `p`.
pub open spec fn find_first<T>(s: Seq<T>, p: spec_fn(T) -> bool) -> Option<T>
    decreases s.len(),
{
    if s.len() == 0 {
        None
    } else if p(s[0]) {
        Some(s[0])
    } else {
        find_first(s.drop_first(), p)
    }
}

proof fn lemma_find_first_step<T>(s: Seq<T>, i: int, p: spec_fn(T) -> bool)
    requires
        0 <= i < s.len(),
    ensures
        find_first(s.skip(i), p) == (if p(s[i]) {
            Some(s[i])
        } else {
            find_first(s.skip(i + 1), p)
        }),
{
    assert(s.skip(i)[0] == s[i]);
    assert(s.skip(i).drop_first() =~= s.skip(i + 1));
}

/// The games of the checker's table, in order.
pub open spec fn known_games() -> Seq<GameView> {
    seq![
        GameView { appid: 740, name: "csgo"@, gamedir: "csgo"@, engine: "csgo"@ },
        GameView { appid: 232250, name: "tf2"@, gamedir: "tf"@, engine: "orangebox_valve"@ },
        GameView { appid: 232330, name: "css"@, gamedir: "cstrike"@, engine: "css"@ },
        GameView { appid: 222860, name: "l4d2"@, gamedir: "left4dead2"@, engine: "left4dead2"@ },
        GameView { appid: 317670, name: "nmrih"@, gamedir: "nmrih"@, engine: "sdk2013"@ },
    ]
}

pub open spec fn has_name(name: Seq<char>) -> spec_fn(GameView) -> bool {
    |g: GameView| g.name == name
}

pub open spec fn has_appid(appid: i32) -> spec_fn(GameView) -> bool {
    |g: GameView| g.appid == appid
}

/// The table of supported games.
pub struct GameCache {
    cache: Vec<Game>,
}

impl View for GameCache {
    type V = Seq<GameView>;

    closed spec fn view(&self) -> Seq<GameView> {
        self.cache@.map_values(|g: Game| g@)
    }
}

impl GameCache {
    /// The table of the five supported games.
    pub fn new() -> (r: GameCache)
        ensures
            r@ == known_games(),
    {
        let mut cache: Vec<Game> = Vec::new();
        cache.push(
            Game { appid: 740, name: String::from_str("csgo"), gamedir: "csgo", engine: "csgo" },
        );
        cache.push(
            Game {
                appid: 232250,
                name: String::from_str("tf2"),
                gamedir: "tf",
                engine: "orangebox_valve",
            },
        );
        cache.push(
            Game { appid: 232330, name: String::from_str("css"), gamedir: "cstrike", engine: "css" },
        );
        cache.push(
            Game {
                appid: 222860,
                name: String::from_str("l4d2"),
                gamedir: "left4dead2",
                engine: "left4dead2",
            },
        );
        cache.push(
            Game {
                appid: 317670,
                name: String::from_str("nmrih"),
                gamedir: "nmrih",
                engine: "sdk2013",
            },
        );
        let r = GameCache { cache };
        assert(r@ =~= known_games());
        r
    }

    /// The app ids of the table, in order.
    pub fn get_ids(&self) -> (r: Vec<i32>)
        ensures
            r@ == self@.map_values(|g: GameView| g.appid),
    {
        let mut r: Vec<i32> = Vec::new();
        let mut i: usize = 0;
        while i < self.cache.len()
            invariant
                i <= self.cache@.len(),
                r@ == self@.take(i as int).map_values(|g: GameView| g.appid),
            decreases self.cache@.len() - i,
        {
            r.push(self.cache[i].appid);
            i = i + 1;
            assert(r@ =~= self@.take(i as int).map_values(|g: GameView| g.appid));
        }
        assert(self@.take(i as int) =~= self@);
        r
    }

    /// The first game whose short name is `shortname`.
    pub fn lookup_shortname(&self, shortname: &str) -> (r: Option<&Game>)
        ensures
            match r {
                Some(g) => find_first(self@, has_name(shortname@)) == Some(g@),
                None => find_first(self@, has_name(shortname@)) is None,
            },
    {
        let mut i: usize = 0;
        assert(self@.skip(0) =~= self@);
        while i < self.cache.len()
            invariant
                i <= self.cache@.len(),
                self@.len() == self.cache@.len(),
                find_first(self@, has_name(shortname@)) == find_first(
                    self@.skip(i as int),
                    has_name(shortname@),
                ),
            decreases self.cache@.len() - i,
        {
            proof {
                lemma_find_first_step(self@, i as int, has_name(shortname@));
            }
            assert(self@[i as int] == self.cache@[i as int]@);
            if text_eq(self.cache[i].name.as_str(), shortname) {
                return Some(&self.cache[i]);
            }
            i = i + 1;
        }
        assert(self@.skip(i as int) =~= Seq::<GameView>::empty());
        None
    }

    /// The first game whose app id is `appid`.
    pub fn lookup_appid(&self, appid: i32) -> (r: Option<&Game>)
        ensures
            match r {
                Some(g) => find_first(self@, has_appid(appid)) == Some(g@),
                None => find_first(self@, has_appid(appid)) is None,
            },
    {
        let mut i: usize = 0;
        assert(self@.skip(0) =~= self@);
        while i < self.cache.len()
            invariant
                i <= self.cache@.len(),
                self@.len() == self.cache@.len(),
                find_first(self@, has_appid(appid)) == find_first(
                    self@.skip(i as int),
                    has_appid(appid),
                ),
            decreases self.cache@.len() - i,
        {
            proof {
                lemma_find_first_step(self@, i as int, has_appid(appid));
            }
            assert(self@[i as int] == self.cache@[i as int]@);
            if self.cache[i].appid == appid {
                return Some(&self.cache[i]);
            }
            i = i + 1;
        }
        assert(self@.skip(i as int) =~= Seq::<GameView>::empty());
        None
    }
}

/// The short name that the steam-update notifier shows for an app id.
pub open spec fn shortname_for(appid: i32) -> Seq<char> {
    if appid == 740 {
        "csgo"@
    } else if appid == 232250 {
        "tf2"@
    } else {
        "unknown"@
    }
}

/// The short name of an app id: "csgo" for 740, "tf2" for 232250, "unknown" otherwise.
pub fn getapp_shortname(appid: i32) -> (r: &'static str)
    ensures
        r@ == shortname_for(appid),
{
    match appid {
        740 => "csgo",
        232250 => "tf2",
        _ => "unknown",
    }
}


/// Looking a game of the table up by its short name finds that very game:
/// no two games of the table share a short name.
pub proof fn law_table_names_resolve(i: int)
    requires
        0 <= i < known_games().len(),
    ensures
        find_first(known_games(), has_name(known_games()[i].name)) == Some(known_games()[i]),
{
    reveal_strlit("csgo");
    reveal_strlit("tf2");
    reveal_strlit("css");
    reveal_strlit("l4d2");
    reveal_strlit("nmrih");
    let t = known_games();
    assert("csgo"@.len() == 4 && "l4d2"@.len() == 4 && "tf2"@.len() == 3 && "css"@.len() == 3);
    assert("nmrih"@.len() == 5);
    assert("csgo"@[0] != "l4d2"@[0]);
    assert("tf2"@[0] != "css"@[0]);
    assert(t[0].name != t[1].name && t[0].name != t[2].name && t[0].name != t[3].name);
    assert(t[0].name != t[4].name && t[1].name != t[2].name && t[1].name != t[3].name);
    assert(t[1].name != t[4].name && t[2].name != t[3].name && t[2].name != t[4].name);
    assert(t[3].name != t[4].name);
    assert(t.drop_first().drop_first().drop_first().drop_first().drop_first().len() == 0);
    reveal_with_fuel(find_first, 6);
}

/// Looking a game of the table up by its app id finds that very game:
/// no two games of the table share an app id.
pub proof fn law_table_appids_resolve(i: int)
    requires
        0 <= i < known_games().len(),
    ensures
        find_first(known_games(), has_appid(known_games()[i].appid)) == Some(known_games()[i]),
{
    let t = known_games();
    assert(t.drop_first().drop_first().drop_first().drop_first().drop_first().len() == 0);
    reveal_with_fuel(find_first, 6);
}

/// Every app id that has a short name of its own names a game of the table
/// under that short name; every other app id is "unknown".
pub proof fn law_shortname_matches_table(appid: i32)
    ensures
        appid == 740 || appid == 232250 ==> (find_first(known_games(), has_appid(appid)) matches Some(
            g,
        ) && g.name == shortname_for(appid)),
        !(appid == 740 || appid == 232250) ==> shortname_for(appid) == "unknown"@,
{
    let t = known_games();
    assert(t.drop_first().drop_first().drop_first().drop_first().drop_first().len() == 0);
    reveal_with_fuel(find_first, 6);
}


/// The first element satisfying `p` is found: when `s[k]` satisfies `p` and
/// nothing before it does, `find_first` gives `s[k]`.
pub proof fn lemma_find_first_at<T>(s: Seq<T>, p: spec_fn(T) -> bool, k: int)
    requires
        0 <= k < s.len(),
        p(s[k]),
        forall|j: int| 0 <= j < k ==> !p(#[trigger] s[j]),
    ensures
        find_first(s, p) == Some(s[k]),
    decreases k,
{
    if k > 0 {
        let t = s.drop_first();
        assert(!p(s[0]));
        assert forall|j: int| 0 <= j < k - 1 implies !p(#[trigger] t[j]) by {
            assert(t[j] == s[j + 1]);
        }
        assert(t[k - 1] == s[k]);
        lemma_find_first_at(t, p, k - 1);
    }
}

/// Nothing is found when no element satisfies `p`.
pub proof fn lemma_find_first_none<T>(s: Seq<T>, p: spec_fn(T) -> bool)
    requires
        forall|j: int| 0 <= j < s.len() ==> !p(#[trigger] s[j]),
    ensures
        find_first(s, p) is None,
    decreases s.len(),
{
    if s.len() > 0 {
        let t = s.drop_first();
        assert(!p(s[0]));
        assert forall|j: int| 0 <= j < t.len() implies !p(#[trigger] t[j]) by {
            assert(t[j] == s[j + 1]);
        }
        lemma_find_first_none(t, p);
    }
}

/// Looking a short name up in the table gives, for each of the five supported
/// names, the full entry of that game (app id, game directory and engine),
/// and nothing for every other name.
pub proof fn law_table_by_name(n: Seq<char>)
    ensures
        find_first(known_games(), has_name(n)) == (if n == "csgo"@ {
            Some(GameView { appid: 740, name: "csgo"@, gamedir: "csgo"@, engine: "csgo"@ })
        } else if n == "tf2"@ {
            Some(GameView { appid: 232250, name: "tf2"@, gamedir: "tf"@, engine: "orangebox_valve"@ })
        } else if n == "css"@ {
            Some(GameView { appid: 232330, name: "css"@, gamedir: "cstrike"@, engine: "css"@ })
        } else if n == "l4d2"@ {
            Some(
                GameView {
                    appid: 222860,
                    name: "l4d2"@,
                    gamedir: "left4dead2"@,
                    engine: "left4dead2"@,
                },
            )
        } else if n == "nmrih"@ {
            Some(GameView { appid: 317670, name: "nmrih"@, gamedir: "nmrih"@, engine: "sdk2013"@ })
        } else {
            None
        }),
{
    reveal_strlit("csgo");
    reveal_strlit("tf2");
    reveal_strlit("css");
    reveal_strlit("l4d2");
    reveal_strlit("nmrih");
    assert("csgo"@.len() == 4 && "l4d2"@.len() == 4 && "tf2"@.len() == 3 && "css"@.len() == 3);
    assert("nmrih"@.len() == 5);
    assert("csgo"@[0] != "l4d2"@[0]);
    assert("tf2"@[0] != "css"@[0]);
    let t = known_games();
    assert(t.drop_first().drop_first().drop_first().drop_first().drop_first().len() == 0);
    reveal_with_fuel(find_first, 6);
}

/// Looking an app id up in the table gives, for each of the five supported
/// app ids, the full entry of that game, and nothing for every other id.
pub proof fn law_table_by_appid(appid: i32)
    ensures
        find_first(known_games(), has_appid(appid)) == (if appid == 740 {
            Some(GameView { appid: 740, name: "csgo"@, gamedir: "csgo"@, engine: "csgo"@ })
        } else if appid == 232250 {
            Some(GameView { appid: 232250, name: "tf2"@, gamedir: "tf"@, engine: "orangebox_valve"@ })
        } else if appid == 232330 {
            Some(GameView { appid: 232330, name: "css"@, gamedir: "cstrike"@, engine: "css"@ })
        } else if appid == 222860 {
            Some(
                GameView {
                    appid: 222860,
                    name: "l4d2"@,
                    gamedir: "left4dead2"@,
                    engine: "left4dead2"@,
                },
            )
        } else if appid == 317670 {
            Some(GameView { appid: 317670, name: "nmrih"@, gamedir: "nmrih"@, engine: "sdk2013"@ })
        } else {
            None
        }),
{
    let t = known_games();
    assert(t.drop_first().drop_first().drop_first().drop_first().drop_first().len() == 0);
    reveal_with_fuel(find_first, 6);
}

} // verus!
