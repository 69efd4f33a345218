use vstd::prelude::*;

use crate::parser::{Item, ItemView};
use crate::text::{concat2, concat3};

verus! {

/// The colours the bot's embeds use.
#[derive(PartialEq, Eq, Structural, Clone, Copy, Debug)]
pub enum Palette {
    Fail,
    Okay,
    Amx,
    Sm,
    Gdc,
}

/// The thumbnails the bot's embeds use.
#[derive(PartialEq, Eq, Structural, Clone, Copy, Debug)]
pub enum Icon {
    Fail,
    Help,
    Notify,
    Gdc,
}

/// A titled field of an embed.
pub struct EmbedField {
    pub name: String,
    pub value: String,
    pub inline: bool,
}

/// The content of a Discord embed, before it is sent.
pub struct EmbedSpec {
    pub color: Option<Palette>,
    pub title: Option<String>,
    pub description: Option<String>,
    pub thumbnail: Option<Icon>,
    pub fields: Vec<EmbedField>,
    pub footer: Option<String>,
}

pub struct EmbedView {
    pub color: Option<Palette>,
    pub title: Option<Seq<char>>,
    pub description: Option<Seq<char>>,
    pub thumbnail: Option<Icon>,
    pub fields: Seq<(Seq<char>, Seq<char>, bool)>,
    pub footer: Option<Seq<char>>,
}

pub open spec fn opt_text(o: Option<String>) -> Option<Seq<char>> {
    match o {
        Some(s) => Some(s@),
        None => None,
    }
}

impl View for EmbedSpec {
    type V = EmbedView;

    open spec fn view(&self) -> EmbedView {
        EmbedView {
            color: self.color,
            title: opt_text(self.title),
            description: opt_text(self.description),
            thumbnail: self.thumbnail,
            fields: self.fields@.map_values(|f: EmbedField| (f.name@, f.value@, f.inline)),
            footer: opt_text(self.footer),
        }
    }
}

/// The footer naming who asked.
pub open spec fn requested_by(name: Seq<char>) -> Seq<char> {
    "Requested by: "@ + name
}

/// "Requested by: <name>".
pub fn requested_by_text(name: &str) -> (r: String)
    ensures
        r@ == requested_by(name@),
{
    concat2("Requested by: ", name)
}

/// The embed that reports a failed command.
pub open spec fn fail_embed_spec(author: Seq<char>, err: Seq<char>) -> EmbedView {
    EmbedView {
        color: Some(Palette::Fail),
        title: Some("Critical error:"@),
        description: Some(err),
        thumbnail: Some(Icon::Fail),
        fields: Seq::empty(),
        footer: Some(requested_by(author)),
    }
}

/// The embed that reports the error `err` of a command asked for by `author`.
pub fn build_fail_embed(author: &str, err: &str) -> (r: EmbedSpec)
    ensures
        r@ == fail_embed_spec(author@, err@),
{
    let r = EmbedSpec {
        color: Some(Palette::Fail),
        title: Some(String::from_str("Critical error:")),
        description: Some(String::from_str(err)),
        thumbnail: Some(Icon::Fail),
        fields: Vec::new(),
        footer: Some(requested_by_text(author)),
    };
    assert(r@.fields =~= Seq::<(Seq<char>, Seq<char>, bool)>::empty());
    r
}

/// The embed that announces a new plugin post.
pub open spec fn plugin_embed_spec(color: Palette, title: Seq<char>, data: ItemView) -> EmbedView {
    EmbedView {
        color: Some(color),
        title: Some(title),
        description: None,
        thumbnail: Some(Icon::Notify),
        fields: seq![
            ("Title"@, data.title, false),
            ("Author"@, data.author, false),
            ("Link"@, "[Click Here]("@ + data.link + ")"@, false),
        ],
        footer: None,
    }
}

fn field(name: &str, value: String) -> (r: EmbedField)
    ensures
        r.name@ == name@,
        r.value@ == value@,
        !r.inline,
{
    EmbedField { name: String::from_str(name), value, inline: false }
}

fn plugin_embed(color: Palette, title: &str, data: Item) -> (r: EmbedSpec)
    ensures
        r@ == plugin_embed_spec(color, title@, data@),
{
    let ghost d = data@;
    let link = concat3("[Click Here](", data.link.as_str(), ")");
    let mut fields: Vec<EmbedField> = Vec::new();
    fields.push(field("Title", data.title));
    fields.push(field("Author", data.author));
    fields.push(field("Link", link));
    let r = EmbedSpec {
        color: Some(color),
        title: Some(String::from_str(title)),
        description: None,
        thumbnail: Some(Icon::Notify),
        fields,
        footer: None,
    };
    assert(r@.fields =~= plugin_embed_spec(color, title@, d).fields);
    r
}

/// The embed that announces a new AMX Mod X plugin.
pub fn build_amx_embed(data: Item) -> (r: EmbedSpec)
    ensures
        r@ == plugin_embed_spec(Palette::Amx, "New AMX Plugin Posted:"@, data@),
{
    plugin_embed(Palette::Amx, "New AMX Plugin Posted:", data)
}

/// The embed that announces a new SourceMod plugin.
pub fn build_sm_embed(data: Item) -> (r: EmbedSpec)
    ensures
        r@ == plugin_embed_spec(Palette::Sm, "New SM Plugin Posted:"@, data@),
{
    plugin_embed(Palette::Sm, "New SM Plugin Posted:", data)
}

} // verus!
