use vstd::prelude::*;

use crate::text::{replace_all, replace_all_spec};

verus! {

/// An RSS document.
#[derive(Debug)]
pub struct RSS {
    pub channel: Channel,
}

/// The channel of an RSS document.
#[derive(Debug)]
pub struct Channel {
    pub title: String,
    pub link: String,
    pub description: String,
    pub language: String,
    pub last_build_date: String,
    pub generator: String,
    pub ttl: i32,
    pub image: Image,
    pub items: Vec<Item>,
}

/// The image of an RSS channel.
#[derive(Debug)]
pub struct Image {
    pub url: String,
    pub title: String,
    pub link: String,
}

/// One post of a forum feed.
#[derive(Debug)]
pub struct Item {
    pub title: String,
    pub link: String,
    pub pub_date: String,
    pub description: String,
    pub content_encoded: String,
    pub category: String,
    pub author: String,
    pub guid: String,
}

/// The text of each field of an [`Item`].
pub struct ItemView {
    pub title: Seq<char>,
    pub link: Seq<char>,
    pub pub_date: Seq<char>,
    pub description: Seq<char>,
    pub content_encoded: Seq<char>,
    pub category: Seq<char>,
    pub author: Seq<char>,
    pub guid: Seq<char>,
}

impl View for Item {
    type V = ItemView;

    open spec fn view(&self) -> ItemView {
        ItemView {
            title: self.title@,
            link: self.link@,
            pub_date: self.pub_date@,
            description: self.description@,
            content_encoded: self.content_encoded@,
            category: self.category@,
            author: self.author@,
            guid: self.guid@,
        }
    }
}

impl Clone for Item {
    fn clone(&self) -> (r: Self)
        ensures
            r@ == self@,
    {
        Item {
            title: self.title.clone(),
            link: self.link.clone(),
            pub_date: self.pub_date.clone(),
            description: self.description.clone(),
            content_encoded: self.content_encoded.clone(),
            category: self.category.clone(),
            author: self.author.clone(),
            guid: self.guid.clone(),
        }
    }
}

impl PartialEq for Item {
    fn eq(&self, other: &Item) -> (r: bool) {
        self.same_as(other)
    }
}

impl vstd::std_specs::cmp::PartialEqSpecImpl for Item {
    open spec fn obeys_eq_spec() -> bool {
        true
    }

    open spec fn eq_spec(&self, other: &Item) -> bool {
        self@ == other@
    }
}

impl Item {
    /// Whether two posts agree in every field.
    pub fn same_as(&self, other: &Item) -> (r: bool)
        ensures
            r == (self@ == other@),
    {
        self.title == other.title && self.link == other.link && self.pub_date == other.pub_date
            && self.description == other.description && self.content_encoded == other.content_encoded
            && self.category == other.category && self.author == other.author && self.guid
            == other.guid
    }
}

pub open spec fn views(items: Seq<Item>) -> Seq<ItemView> {
    items.map_values(|x: Item| x@)
}

/// The posts of `new` that `seen` does not hold, in the order of `new`.
pub open spec fn fresh_items(seen: Seq<ItemView>, new: Seq<ItemView>) -> Seq<ItemView>
    decreases new.len(),
{
    if new.len() == 0 {
        Seq::empty()
    } else {
        let rest = fresh_items(seen, new.drop_last());
        if seen.contains(new.last()) {
            rest
        } else {
            rest.push(new.last())
        }
    }
}

/// The feed text made safe for the XML reader: every '&' becomes "&amp;".
pub open spec fn escape_ampersands_spec(text: Seq<char>) -> Seq<char> {
    replace_all_spec(text, "&"@, "&amp;"@)
}

/// Escapes every '&' of a fetched feed as "&amp;" before it is read as XML.
pub fn escape_ampersands(text: &str) -> (r: String)
    ensures
        r@ == escape_ampersands_spec(text@),
{
    proof {
        reveal_strlit("&");
    }
    replace_all(text, "&", "&amp;")
}

/// Whether `cache` holds a post equal to `x`.
pub fn cache_contains(cache: &Vec<Item>, x: &Item) -> (r: bool)
    ensures
        r == views(cache@).contains(x@),
{
    let mut i: usize = 0;
    while i < cache.len()
        invariant
            i <= cache@.len(),
            forall|k: int| 0 <= k < i ==> cache@[k]@ != x@,
        decreases cache@.len() - i,
    {
        if cache[i].same_as(x) {
            assert(views(cache@)[i as int] == x@);
            return true;
        }
        i = i + 1;
    }
    assert(!views(cache@).contains(x@)) by {
        if views(cache@).contains(x@) {
            let k = choose|k: int| 0 <= k < views(cache@).len() && views(cache@)[k] == x@;
            assert(cache@[k]@ == x@);
        }
    }
    false
}

/// The posts of `new` that are not in `cache` (what `notify_on_new` announces).
pub fn new_entries(cache: &Vec<Item>, new: &Vec<Item>) -> (r: Vec<Item>)
    ensures
        views(r@) == fresh_items(views(cache@), views(new@)),
{
    let mut r: Vec<Item> = Vec::new();
    let mut i: usize = 0;
    while i < new.len()
        invariant
            i <= new@.len(),
            views(r@) == fresh_items(views(cache@), views(new@.take(i as int))),
        decreases new@.len() - i,
    {
        let ghost t = new@.take(i + 1);
        proof {
            assert(views(t).drop_last() =~= views(new@.take(i as int)));
            assert(views(t).last() == new@[i as int]@);
        }
        if !cache_contains(cache, &new[i]) {
            r.push(new[i].clone());
            assert(views(r@) =~= fresh_items(views(cache@), views(new@.take(i as int))).push(new@[i as int]@));
        }
        i = i + 1;
    }
    assert(new@.take(i as int) =~= new@);
    r
}

/// Records the posts of `new` that the cache has not seen: they are appended
/// to the cache, in order, and returned to be announced.
pub fn notify_on_new(cache: &mut Vec<Item>, new: &Vec<Item>) -> (r: Vec<Item>)
    ensures
        views(r@) == fresh_items(views(old(cache)@), views(new@)),
        views(final(cache)@) == views(old(cache)@) + views(r@),
{
    let r = new_entries(cache, new);
    let ghost c0 = views(cache@);
    let mut i: usize = 0;
    while i < r.len()
        invariant
            i <= r@.len(),
            views(cache@) == c0 + views(r@.take(i as int)),
        decreases r@.len() - i,
    {
        let ghost prev = cache@;
        let x = r[i].clone();
        cache.push(x);
        assert(views(cache@) =~= views(prev).push(r@[i as int]@));
        assert(views(r@.take(i + 1)) =~= views(r@.take(i as int)).push(r@[i as int]@));
        i = i + 1;
        assert(views(cache@) =~= c0 + views(r@.take(i as int)));
    }
    assert(r@.take(i as int) =~= r@);
    r
}

/// One poll of a feed: the first poll fills the empty cache and announces
/// nothing; later polls announce (and remember) the posts not seen before.
pub fn absorb_feed(cache: &mut Vec<Item>, items: Vec<Item>) -> (r: Vec<Item>)
    ensures
        old(cache)@.len() == 0 ==> r@.len() == 0 && views(final(cache)@) == views(items@),
        old(cache)@.len() > 0 ==> views(r@) == fresh_items(views(old(cache)@), views(items@))
            && views(final(cache)@) == views(old(cache)@) + views(r@),
{
    if cache.len() == 0 {
        *cache = items;
        Vec::new()
    } else {
        notify_on_new(cache, &items)
    }
}


/// Every post announced is a post of the feed that had not been seen.
pub proof fn law_fresh_are_unseen(seen: Seq<ItemView>, new: Seq<ItemView>)
    ensures
        forall|k: int|
            0 <= k < fresh_items(seen, new).len() ==> new.contains(#[trigger] fresh_items(seen, new)[k])
                && !seen.contains(fresh_items(seen, new)[k]),
    decreases new.len(),
{
    if new.len() > 0 {
        law_fresh_are_unseen(seen, new.drop_last());
        let rest = fresh_items(seen, new.drop_last());
        assert forall|k: int|
            0 <= k < fresh_items(seen, new).len() implies new.contains(
                #[trigger] fresh_items(seen, new)[k],
            ) && !seen.contains(fresh_items(seen, new)[k]) by {
            if k < rest.len() {
                assert(fresh_items(seen, new)[k] == rest[k]);
                let j = choose|j: int| 0 <= j < new.drop_last().len() && new.drop_last()[j] == rest[k];
                assert(new[j] == rest[k]);
            } else {
                assert(fresh_items(seen, new)[k] == new.last());
                assert(new[new.len() - 1] == new.last());
            }
        }
    }
}

/// Every post of the feed that had not been seen is announced.
pub proof fn law_unseen_are_announced(seen: Seq<ItemView>, new: Seq<ItemView>)
    ensures
        forall|k: int|
            0 <= k < new.len() && !seen.contains(#[trigger] new[k]) ==> fresh_items(seen, new).contains(new[k]),
    decreases new.len(),
{
    if new.len() > 0 {
        law_unseen_are_announced(seen, new.drop_last());
        let rest = fresh_items(seen, new.drop_last());
        assert forall|k: int|
            0 <= k < new.len() && !seen.contains(#[trigger] new[k]) implies fresh_items(seen, new).contains(new[k]) by {
            if k < new.len() - 1 {
                assert(new.drop_last()[k] == new[k]);
                let j = choose|j: int| 0 <= j < rest.len() && rest[j] == new[k];
                assert(fresh_items(seen, new)[j] == new[k]);
            } else {
                let f = fresh_items(seen, new);
                assert(f[f.len() - 1] == new[k]);
            }
        }
    }
}

proof fn lemma_nothing_fresh(seen: Seq<ItemView>, new: Seq<ItemView>)
    requires
        forall|k: int| 0 <= k < new.len() ==> seen.contains(#[trigger] new[k]),
    ensures
        fresh_items(seen, new) == Seq::<ItemView>::empty(),
    decreases new.len(),
{
    if new.len() > 0 {
        assert forall|k: int| 0 <= k < new.drop_last().len() implies seen.contains(#[trigger] new.drop_last()[k]) by {
            assert(new.drop_last()[k] == new[k]);
        }
        lemma_nothing_fresh(seen, new.drop_last());
        assert(seen.contains(new[new.len() - 1]));
    }
}

/// Polling the same feed twice announces its new posts once: after they are
/// recorded, nothing of that feed is new any more.
pub proof fn law_feed_announced_once(seen: Seq<ItemView>, new: Seq<ItemView>)
    ensures
        fresh_items(seen + fresh_items(seen, new), new) == Seq::<ItemView>::empty(),
{
    let f = fresh_items(seen, new);
    law_unseen_are_announced(seen, new);
    assert forall|k: int| 0 <= k < new.len() implies (seen + f).contains(#[trigger] new[k]) by {
        if seen.contains(new[k]) {
            let j = choose|j: int| 0 <= j < seen.len() && seen[j] == new[k];
            assert((seen + f)[j] == new[k]);
        } else {
            let j = choose|j: int| 0 <= j < f.len() && f[j] == new[k];
            assert((seen + f)[seen.len() + j] == new[k]);
        }
    }
    lemma_nothing_fresh(seen + f, new);
}


/// Escaping works character by character, on any text: the empty text stays
/// empty, and a text starting with `c` escapes to "&amp;" (when `c` is '&') or
/// to `c` itself, followed by the escaped rest.
pub proof fn law_escape_by_character(c: char, rest: Seq<char>)
    ensures
        escape_ampersands_spec(Seq::<char>::empty()) == Seq::<char>::empty(),
        escape_ampersands_spec(seq![c] + rest) == (if c == '&' {
            seq!['&', 'a', 'm', 'p', ';']
        } else {
            seq![c]
        }) + escape_ampersands_spec(rest),
{
    reveal_strlit("&");
    reveal_strlit("&amp;");
    let s = seq![c] + rest;
    assert(s.take(1) =~= seq![c]);
    assert(s.skip(1) =~= rest);
    assert(s.drop_first() =~= rest);
    assert(s[0] == c);
    assert("&amp;"@ =~= seq!['&', 'a', 'm', 'p', ';']);
    assert("&"@ =~= seq!['&']);
}

/// Every '&' of an escaped text begins "&amp;": escaping never leaves a bare '&'.
pub proof fn law_escape_leaves_no_bare_ampersand(text: Seq<char>)
    ensures
        forall|i: int|
            0 <= i < escape_ampersands_spec(text).len() && #[trigger] escape_ampersands_spec(text)[i]
                == '&' ==> i + 4 < escape_ampersands_spec(text).len() && escape_ampersands_spec(
                text,
            ).subrange(i, i + 5) == seq!['&', 'a', 'm', 'p', ';'],
    decreases text.len(),
{
    if text.len() == 0 {
        law_escape_by_character('a', text);
    } else {
        let c = text[0];
        let rest = text.drop_first();
        assert(text =~= seq![c] + rest);
        law_escape_by_character(c, rest);
        law_escape_leaves_no_bare_ampersand(rest);
        let e = escape_ampersands_spec(text);
        let er = escape_ampersands_spec(rest);
        let head: Seq<char> = if c == '&' {
            seq!['&', 'a', 'm', 'p', ';']
        } else {
            seq![c]
        };
        assert(e == head + er);
        assert forall|i: int| 0 <= i < e.len() && #[trigger] e[i] == '&' implies i + 4 < e.len()
            && e.subrange(i, i + 5) == seq!['&', 'a', 'm', 'p', ';'] by {
            if i < head.len() {
                assert(c == '&');
                assert(i == 0);
                assert(e.subrange(0, 5) =~= head);
            } else {
                let j = i - head.len();
                assert(er[j] == e[i]);
                assert(e.subrange(i, i + 5) =~= er.subrange(j, j + 5));
            }
        }
    }
}

} // verus!
