use vstd::prelude::*;

verus! {

/// The entries that the bot keeps about itself: the channel that plugin
/// posts are announced in, its command prefix and its own user id.
pub fn bot_info_entries(plugin_channel: &str, prefix: &str, bot_id: &str) -> (r: Vec<(&'static str, String)>)
    ensures
        r@.len() == 3,
        r@[0].0@ == "PLUGIN_CHANNEL"@ && r@[0].1@ == plugin_channel@,
        r@[1].0@ == "BOT_PREFIX"@ && r@[1].1@ == prefix@,
        r@[2].0@ == "BOT_ID"@ && r@[2].1@ == bot_id@,
{
    let mut r: Vec<(&'static str, String)> = Vec::new();
    r.push(("PLUGIN_CHANNEL", String::from_str(plugin_channel)));
    r.push(("BOT_PREFIX", String::from_str(prefix)));
    r.push(("BOT_ID", String::from_str(bot_id)));
    r
}

} // verus!
