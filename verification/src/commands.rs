use vstd::prelude::*;

use crate::downloader::GDCError;
use crate::embeds::{EmbedField, EmbedSpec, EmbedView, Icon, Palette, requested_by, requested_by_text};
use crate::gameinfo::{Game, GameCache, find_first, has_name};
use crate::text::{concat3, i32_to_decimal, int_decimal, text_eq};

verus! {

/// What `help` answers: with no argument, the list of commands; for "help",
/// a joke; for any other name, that the command was not found.
pub open spec fn help_embed_spec(arg: Option<Seq<char>>) -> EmbedView {
    match arg {
        None => EmbedView {
            color: Some(Palette::Okay),
            title: Some("Commands"@),
            description: Some("I currently have no commands, add one! "@),
            thumbnail: Some(Icon::Help),
            fields: Seq::empty(),
            footer: None,
        },
        Some(cmd) => if cmd == "help"@ {
            EmbedView {
                color: None,
                title: None,
                description: Some("Do you like recursion or something?"@),
                thumbnail: Some(Icon::Help),
                fields: Seq::empty(),
                footer: None,
            }
        } else {
            EmbedView {
                color: Some(Palette::Fail),
                title: Some("Command not found"@),
                description: Some("Unknown command '"@ + cmd + "'"@),
                thumbnail: Some(Icon::Fail),
                fields: Seq::empty(),
                footer: None,
            }
        },
    }
}

/// The answer of the `help` command to its first argument, if any.
pub fn help_embed(arg: Option<&str>) -> (r: EmbedSpec)
    ensures
        r@ == help_embed_spec(
            match arg {
                Some(a) => Some(a@),
                None => None,
            },
        ),
{
    let r = match arg {
        None => EmbedSpec {
            color: Some(Palette::Okay),
            title: Some(String::from_str("Commands")),
            description: Some(String::from_str("I currently have no commands, add one! ")),
            thumbnail: Some(Icon::Help),
            fields: Vec::new(),
            footer: None,
        },
        Some(cmd) => {
            if text_eq(cmd, "help") {
                EmbedSpec {
                    color: None,
                    title: None,
                    description: Some(String::from_str("Do you like recursion or something?")),
                    thumbnail: Some(Icon::Help),
                    fields: Vec::new(),
                    footer: None,
                }
            } else {
                EmbedSpec {
                    color: Some(Palette::Fail),
                    title: Some(String::from_str("Command not found")),
                    description: Some(concat3("Unknown command '", cmd, "'")),
                    thumbnail: Some(Icon::Fail),
                    fields: Vec::new(),
                    footer: None,
                }
            }
        },
    };
    assert(r@.fields =~= Seq::<(Seq<char>, Seq<char>, bool)>::empty());
    r
}

/// The error the `gdc` command gives without an argument.
pub open spec fn missing_game_text() -> Seq<char> {
    "Please supply a game to execute gamedata checker on.\n\nExample: -gdc csgo"@
}

/// The error the `gdc` command gives for a name that is not in the table.
pub open spec fn unknown_game_text() -> Seq<char> {
    "Invalid or unsupported target."@
}

/// The game that the `gdc` command is asked to check, found by short name.
pub fn gdc_target(arg: Option<&str>, cache: &GameCache) -> (r: Result<Game, String>)
    ensures
        arg is None ==> (r matches Err(e) && e@ == missing_game_text()),
        arg matches Some(a) ==> match find_first(cache@, has_name(a@)) {
            Some(g) => r matches Ok(game) && game@ == g,
            None => r matches Err(e) && e@ == unknown_game_text(),
        },
{
    match arg {
        None => Err(
            String::from_str("Please supply a game to execute gamedata checker on.\n\nExample: -gdc csgo"),
        ),
        Some(a) => match cache.lookup_shortname(a) {
            Some(g) => Ok(g.clone()),
            None => Err(String::from_str("Invalid or unsupported target.")),
        },
    }
}

/// The log lines joined by newlines.
pub open spec fn join_lines(log: Seq<Seq<char>>) -> Seq<char>
    decreases log.len(),
{
    if log.len() == 0 {
        Seq::empty()
    } else if log.len() == 1 {
        log[0]
    } else {
        join_lines(log.drop_last()) + "\n"@ + log.last()
    }
}

/// The progress text of a gdc run: its log in a code block.
pub open spec fn log_block(log: Seq<Seq<char>>) -> Seq<char> {
    "```\n"@ + join_lines(log) + "\n```"@
}

/// The progress embed of a gdc run with the given log and fields.
pub open spec fn gdc_embed_spec(
    tag: Seq<char>,
    log: Seq<Seq<char>>,
    fields: Seq<(Seq<char>, Seq<char>, bool)>,
) -> EmbedView {
    EmbedView {
        color: Some(Palette::Gdc),
        title: Some("Gamedata Checker"@),
        description: Some(log_block(log)),
        thumbnail: Some(Icon::Gdc),
        fields,
        footer: Some(requested_by(tag)),
    }
}

/// The outcome of checking one game-data file: whether gdc passed, or the
/// error that kept it from running.
pub struct CheckOutcome {
    pub file: String,
    pub outcome: Result<bool, GDCError>,
}

/// The fields of the results embed: one per file that could not be checked,
/// holding its error in a code block.
pub open spec fn error_fields(results: Seq<CheckOutcome>) -> Seq<(Seq<char>, Seq<char>, bool)>
    decreases results.len(),
{
    if results.len() == 0 {
        Seq::empty()
    } else {
        let rest = error_fields(results.drop_last());
        match results.last().outcome {
            Ok(_) => rest,
            Err(e) => rest.push((results.last().file@, "```\n"@ + e@ + "\n```"@, false)),
        }
    }
}

/// The log of a gdc run, shown to the user as it grows.
pub struct GdcLog {
    tag: String,
    log: Vec<String>,
}

impl GdcLog {
    pub closed spec fn tag(&self) -> Seq<char> {
        self.tag@
    }

    pub closed spec fn lines(&self) -> Seq<Seq<char>> {
        self.log@.map_values(|s: String| s@)
    }

    /// An empty log of a run asked for by the user `tag`.
    pub fn new(tag: &str) -> (r: GdcLog)
        ensures
            r.tag() == tag@,
            r.lines() == Seq::<Seq<char>>::empty(),
    {
        let r = GdcLog { tag: String::from_str(tag), log: Vec::new() };
        assert(r.lines() =~= Seq::<Seq<char>>::empty());
        r
    }

    fn block(&self) -> (r: String)
        ensures
            r@ == log_block(self.lines()),
    {
        let mut joined = String::new();
        let mut i: usize = 0;
        proof {
            reveal_strlit("\n");
        }
        while i < self.log.len()
            invariant
                i <= self.log@.len(),
                joined@ == join_lines(self.lines().take(i as int)),
            decreases self.log@.len() - i,
        {
            let ghost t = self.lines().take(i + 1);
            if i > 0 {
                joined.append("\n");
            }
            joined.append(self.log[i].as_str());
            proof {
                assert(t.drop_last() =~= self.lines().take(i as int));
                assert(t.last() == self.log@[i as int]@);
                if i == 0 {
                    assert(joined@ =~= join_lines(t));
                } else {
                    assert(joined@ =~= join_lines(t));
                }
            }
            i = i + 1;
        }
        assert(self.lines().take(i as int) =~= self.lines());
        concat3("```\n", joined.as_str(), "\n```")
    }

    fn push_line(&mut self, text: &str)
        ensures
            final(self).tag() == old(self).tag(),
            final(self).lines() == old(self).lines().push(text@),
    {
        self.log.push(String::from_str(text));
        assert(self.lines() =~= old(self).lines().push(text@));
    }

    /// Adds a line to the log; the embed that shows the log so far.
    pub fn progress(&mut self, text: &str) -> (r: EmbedSpec)
        ensures
            final(self).tag() == old(self).tag(),
            final(self).lines() == old(self).lines().push(text@),
            r@ == gdc_embed_spec(old(self).tag(), old(self).lines().push(text@), Seq::empty()),
    {
        self.push_line(text);
        let r = EmbedSpec {
            color: Some(Palette::Gdc),
            title: Some(String::from_str("Gamedata Checker")),
            description: Some(self.block()),
            thumbnail: Some(Icon::Gdc),
            fields: Vec::new(),
            footer: Some(requested_by_text(self.tag.as_str())),
        };
        assert(r@.fields =~= Seq::<(Seq<char>, Seq<char>, bool)>::empty());
        r
    }

    /// Ends the log with "Execution completed."; the embed with the log and
    /// one field for each file that could not be checked.
    pub fn results(&mut self, results: &Vec<CheckOutcome>) -> (r: EmbedSpec)
        ensures
            final(self).tag() == old(self).tag(),
            final(self).lines() == old(self).lines().push("Execution completed."@),
            r@ == gdc_embed_spec(
                old(self).tag(),
                old(self).lines().push("Execution completed."@),
                error_fields(results@),
            ),
    {
        let mut fields: Vec<EmbedField> = Vec::new();
        let mut i: usize = 0;
        while i < results.len()
            invariant
                i <= results@.len(),
                fields@.map_values(|f: EmbedField| (f.name@, f.value@, f.inline)) == error_fields(
                    results@.take(i as int),
                ),
            decreases results@.len() - i,
        {
            let ghost t = results@.take(i + 1);
            proof {
                assert(t.drop_last() =~= results@.take(i as int));
                assert(t.last() == results@[i as int]);
            }
            match &results[i].outcome {
                Ok(_) => {},
                Err(e) => {
                    let value = concat3("```\n", e.message(), "\n```");
                    fields.push(EmbedField { name: results[i].file.clone(), value, inline: false });
                },
            }
            assert(fields@.map_values(|f: EmbedField| (f.name@, f.value@, f.inline)) =~= error_fields(t));
            i = i + 1;
        }
        assert(results@.take(i as int) =~= results@);
        self.push_line("Execution completed.");
        EmbedSpec {
            color: Some(Palette::Gdc),
            title: Some(String::from_str("Gamedata Checker")),
            description: Some(self.block()),
            thumbnail: Some(Icon::Gdc),
            fields,
            footer: Some(requested_by_text(self.tag.as_str())),
        }
    }
}

/// The log line that announces the download of an app.
pub fn downloading_line(appid: i32) -> (r: String)
    ensures
        r@ == "Downloading appid '"@ + int_decimal(appid as int) + "'"@,
{
    let d = i32_to_decimal(appid);
    concat3("Downloading appid '", d.as_str(), "'")
}


/// The fields of the results embed are gathered outcome by outcome, over any
/// split of the outcomes: the fields of `a` followed by `b` are the fields of
/// `a` followed by the fields of `b`, and a single outcome gives its own
/// field when it is an error and none otherwise. So every error is shown,
/// once, in the order of the outcomes.
pub proof fn law_error_fields_split(a: Seq<CheckOutcome>, b: Seq<CheckOutcome>)
    ensures
        error_fields(a + b) == error_fields(a) + error_fields(b),
        forall|o: CheckOutcome|
            #[trigger] error_fields(seq![o]) == match o.outcome {
                Ok(_) => Seq::<(Seq<char>, Seq<char>, bool)>::empty(),
                Err(e) => seq![(o.file@, "```\n"@ + e@ + "\n```"@, false)],
            },
        error_fields(Seq::<CheckOutcome>::empty()) == Seq::<(Seq<char>, Seq<char>, bool)>::empty(),
    decreases b.len(),
{
    assert forall|o: CheckOutcome|
        #[trigger] error_fields(seq![o]) == match o.outcome {
            Ok(_) => Seq::<(Seq<char>, Seq<char>, bool)>::empty(),
            Err(e) => seq![(o.file@, "```\n"@ + e@ + "\n```"@, false)],
        } by {
        assert(seq![o].drop_last() =~= Seq::<CheckOutcome>::empty());
        assert(seq![o].last() == o);
        assert(error_fields(Seq::<CheckOutcome>::empty()) =~= Seq::<(Seq<char>, Seq<char>, bool)>::empty());
        assert(error_fields(seq![o].drop_last()) =~= Seq::<(Seq<char>, Seq<char>, bool)>::empty());
        match o.outcome {
            Ok(_) => {},
            Err(e) => {
                assert(Seq::<(Seq<char>, Seq<char>, bool)>::empty().push((o.file@, "```\n"@ + e@ + "\n```"@, false))
                    =~= seq![(o.file@, "```\n"@ + e@ + "\n```"@, false)]);
            },
        }
    }
    if b.len() == 0 {
        assert(a + b =~= a);
        assert(error_fields(a) + error_fields(b) =~= error_fields(a));
    } else {
        law_error_fields_split(a, b.drop_last());
        assert((a + b).drop_last() =~= a + b.drop_last());
        assert((a + b).last() == b.last());
        let ea = error_fields(a);
        let eb = error_fields(b.drop_last());
        match b.last().outcome {
            Ok(_) => {},
            Err(e) => {
                assert((ea + eb).push((b.last().file@, "```\n"@ + e@ + "\n```"@, false)) =~= ea + eb.push(
                    (b.last().file@, "```\n"@ + e@ + "\n```"@, false),
                ));
            },
        }
    }
}

/// The progress text shows the whole log, however long: one line is the
/// line in a code block, and adding a line to a non-empty log puts a newline
/// and the new line just before the closing "\n```", keeping all that was
/// shown before.
pub proof fn law_log_block_grows(log: Seq<Seq<char>>, line: Seq<char>)
    ensures
        log_block(seq![line]) == "```\n"@ + line + "\n```"@,
        log.len() > 0 ==> log_block(log.push(line)) == log_block(log).subrange(
            0,
            log_block(log).len() - 4,
        ) + seq!['\n'] + line + "\n```"@,
{
    reveal_strlit("\n```");
    reveal_strlit("\n");
    assert(seq![line].len() == 1);
    assert(join_lines(seq![line]) == line);
    if log.len() > 0 {
        let p = log.push(line);
        assert(p.drop_last() =~= log);
        assert(p.last() == line);
        let b = log_block(log);
        let pre = "```\n"@ + join_lines(log);
        assert(b == pre + "\n```"@);
        assert(b.subrange(0, b.len() - 4) =~= pre);
        assert("\n"@ =~= seq!['\n']);
        assert(log_block(p) =~= pre + seq!['\n'] + line + "\n```"@);
    }
}

} // verus!
