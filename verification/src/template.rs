//! The home page of the `template` route: a fixed frame around a list of
//! talks, each generated from its name, link and description.

use vstd::prelude::*;
use crate::bytes::append_bytes;

verus! {

/// A talk listed on the home page.
pub struct Talk {
    pub name: Vec<u8>,
    pub url: Vec<u8>,
    pub description: Vec<u8>,
}

/// The mathematical value of a [`Talk`].
pub struct TalkView {
    pub name: Seq<u8>,
    pub url: Seq<u8>,
    pub description: Seq<u8>,
}

impl View for Talk {
    type V = TalkView;

    open spec fn view(&self) -> TalkView {
        TalkView { name: self.name@, url: self.url@, description: self.description@ }
    }
}

/// The values of a list of talks.
pub open spec fn talk_views(talks: Seq<Talk>) -> Seq<TalkView> {
    talks.map_values(|t: Talk| t@)
}
pub open spec fn page_head() -> Seq<u8> {
    seq![60u8, 33, 68, 79, 67, 84, 89, 80, 69, 32, 104, 116, 109, 108, 62, 60, 104, 116, 109, 108, 62, 60, 104, 101, 97, 100, 62, 60, 109, 101, 116, 97, 32, 99, 104, 97, 114, 115, 101, 116, 61, 34, 117, 116, 102, 45, 56, 34, 62, 60, 116, 105, 116, 108, 101, 62, 84, 104, 101, 32, 82, 111, 99, 32, 80, 114, 111, 103, 114, 97, 109, 109, 105, 110, 103, 32, 76, 97, 110, 103, 117, 97, 103, 101, 60, 47, 116, 105, 116, 108, 101, 62, 60, 47, 104, 101, 97, 100, 62, 60, 98, 111, 100, 121, 62, 60, 104, 49, 62, 82, 111, 99, 60, 47, 104, 49, 62, 60, 112, 62, 65, 32, 102, 97, 115, 116, 44, 32, 102, 114, 105, 101, 110, 100, 108, 121, 44, 32, 102, 117, 110, 99, 116, 105, 111, 110, 97, 108, 32, 108, 97, 110, 103, 117, 97, 103, 101, 46, 60, 47, 112, 62, 60, 104, 50, 62, 84, 97, 108, 107, 115, 60, 47, 104, 50, 62, 60, 117, 108, 62]
}
pub open spec fn page_tail() -> Seq<u8> {
    seq![60u8, 47, 117, 108, 62, 60, 47, 98, 111, 100, 121, 62, 60, 47, 104, 116, 109, 108, 62]
}
pub open spec fn item_open() -> Seq<u8> {
    seq![60u8, 108, 105, 62, 60, 97, 32, 104, 114, 101, 102, 61, 34]
}
pub open spec fn item_href_close() -> Seq<u8> {
    seq![34u8, 62]
}
pub open spec fn item_link_close() -> Seq<u8> {
    seq![60u8, 47, 97, 62, 58, 32]
}
pub open spec fn item_close() -> Seq<u8> {
    seq![60u8, 47, 108, 105, 62]
}
/// One talk as a list item: `<li><a href="<url>"><name></a>: <description></li>`.
pub open spec fn talk_item(t: TalkView) -> Seq<u8> {
    item_open() + t.url + item_href_close() + t.name + item_link_close() + t.description
        + item_close()
}

/// The list items of the talks, in order.
pub open spec fn talk_items(talks: Seq<TalkView>) -> Seq<u8>
    decreases talks.len(),
{
    if talks.len() == 0 {
        Seq::empty()
    } else {
        talk_items(talks.drop_last()) + talk_item(talks.last())
    }
}

/// The home page listing `talks`: the page head, one list item per talk,
/// the page tail.
pub open spec fn home_page(talks: Seq<TalkView>) -> Seq<u8> {
    page_head() + talk_items(talks) + page_tail()
}

/// Renders the home page for a list of talks.
pub fn render_home_page(talks: &Vec<Talk>) -> (page: Vec<u8>)
    ensures
        page@ == home_page(talk_views(talks@)),
{
    let head: [u8; 180] = [60, 33, 68, 79, 67, 84, 89, 80, 69, 32, 104, 116, 109, 108, 62, 60, 104, 116, 109, 108, 62, 60, 104, 101, 97, 100, 62, 60, 109, 101, 116, 97, 32, 99, 104, 97, 114, 115, 101, 116, 61, 34, 117, 116, 102, 45, 56, 34, 62, 60, 116, 105, 116, 108, 101, 62, 84, 104, 101, 32, 82, 111, 99, 32, 80, 114, 111, 103, 114, 97, 109, 109, 105, 110, 103, 32, 76, 97, 110, 103, 117, 97, 103, 101, 60, 47, 116, 105, 116, 108, 101, 62, 60, 47, 104, 101, 97, 100, 62, 60, 98, 111, 100, 121, 62, 60, 104, 49, 62, 82, 111, 99, 60, 47, 104, 49, 62, 60, 112, 62, 65, 32, 102, 97, 115, 116, 44, 32, 102, 114, 105, 101, 110, 100, 108, 121, 44, 32, 102, 117, 110, 99, 116, 105, 111, 110, 97, 108, 32, 108, 97, 110, 103, 117, 97, 103, 101, 46, 60, 47, 112, 62, 60, 104, 50, 62, 84, 97, 108, 107, 115, 60, 47, 104, 50, 62, 60, 117, 108, 62];
    let tail: [u8; 19] = [60, 47, 117, 108, 62, 60, 47, 98, 111, 100, 121, 62, 60, 47, 104, 116, 109, 108, 62];
    let open: [u8; 13] = [60, 108, 105, 62, 60, 97, 32, 104, 114, 101, 102, 61, 34];
    let href_close: [u8; 2] = [34, 62];
    let link_close: [u8; 6] = [60, 47, 97, 62, 58, 32];
    let close: [u8; 5] = [60, 47, 108, 105, 62];
    assert(head@ =~= page_head());
    assert(tail@ =~= page_tail());
    assert(open@ =~= item_open());
    assert(href_close@ =~= item_href_close());
    assert(link_close@ =~= item_link_close());
    assert(close@ =~= item_close());
    let mut page: Vec<u8> = Vec::new();
    append_bytes(&mut page, head.as_slice());
    let ghost views = talk_views(talks@);
    let mut i: usize = 0;
    assert(views.take(0) =~= Seq::<TalkView>::empty());
    while i < talks.len()
        invariant
            i <= talks@.len(),
            views == talk_views(talks@),
            views.len() == talks@.len(),
            open@ == item_open(),
            href_close@ == item_href_close(),
            link_close@ == item_link_close(),
            close@ == item_close(),
            page@ == page_head() + talk_items(views.take(i as int)),
        decreases talks@.len() - i,
    {
        let t = &talks[i];
        let mut item: Vec<u8> = Vec::new();
        append_bytes(&mut item, open.as_slice());
        assert(item@ =~= item_open());
        append_bytes(&mut item, t.url.as_slice());
        append_bytes(&mut item, href_close.as_slice());
        append_bytes(&mut item, t.name.as_slice());
        append_bytes(&mut item, link_close.as_slice());
        append_bytes(&mut item, t.description.as_slice());
        append_bytes(&mut item, close.as_slice());
        assert(item@ == talk_item(t@));
        append_bytes(&mut page, item.as_slice());
        assert(views[i as int] == t@);
        assert(views.take(i + 1).drop_last() =~= views.take(i as int));
        i = i + 1;
    }
    assert(views.take(i as int) =~= views);
    append_bytes(&mut page, tail.as_slice());
    page
}

/// Builds a talk from its three texts.
pub fn new_talk(name: &[u8], url: &[u8], description: &[u8]) -> (t: Talk)
    ensures
        t@ == (TalkView { name: name@, url: url@, description: description@ }),
{
    let mut n: Vec<u8> = Vec::new();
    append_bytes(&mut n, name);
    let mut u: Vec<u8> = Vec::new();
    append_bytes(&mut u, url);
    let mut d: Vec<u8> = Vec::new();
    append_bytes(&mut d, description);
    assert(n@ =~= name@);
    assert(u@ =~= url@);
    assert(d@ =~= description@);
    Talk { name: n, url: u, description: d }
}

/// The talks on the Roc home page.
pub open spec fn roc_talk_list() -> Seq<TalkView> {
    seq![
        TalkView {
            name: seq![79u8, 117, 116, 112, 101, 114, 102, 111, 114, 109, 105, 110, 103, 32, 73, 109, 112, 101, 114, 97, 116, 105, 118, 101, 32, 119, 105, 116, 104, 32, 80, 117, 114, 101, 32, 70, 117, 110, 99, 116, 105, 111, 110, 97, 108, 32, 76, 97, 110, 103, 117, 97, 103, 101, 115],
            url: seq![104u8, 116, 116, 112, 115, 58, 47, 47, 121, 111, 117, 116, 117, 46, 98, 101, 47, 118, 122, 102, 121, 52, 69, 75, 119, 71, 95, 89],
            description: seq![82u8, 105, 99, 104, 97, 114, 100, 32, 70, 101, 108, 100, 109, 97, 110, 32, 97, 116, 32, 83, 116, 114, 97, 110, 103, 101, 32, 76, 111, 111, 112, 32, 50, 48, 50, 49],
        },
        TalkView {
            name: seq![82u8, 111, 99, 32, 97, 116, 32, 72, 97, 110, 100, 109, 97, 100, 101, 32, 83, 101, 97, 116, 116, 108, 101],
            url: seq![104u8, 116, 116, 112, 115, 58, 47, 47, 109, 101, 100, 105, 97, 46, 104, 97, 110, 100, 109, 97, 100, 101, 45, 115, 101, 97, 116, 116, 108, 101, 46, 99, 111, 109, 47, 114, 111, 99, 45, 108, 97, 110, 103],
            description: seq![82u8, 105, 99, 104, 97, 114, 100, 32, 70, 101, 108, 100, 109, 97, 110, 32, 97, 116, 32, 72, 97, 110, 100, 109, 97, 100, 101, 32, 83, 101, 97, 116, 116, 108, 101, 32, 50, 48, 50, 49],
        },
        TalkView {
            name: seq![82u8, 111, 99, 32, 111, 110, 32, 90, 105, 103, 32, 83, 72, 79, 87, 84, 73, 77, 69],
            url: seq![104u8, 116, 116, 112, 115, 58, 47, 47, 121, 111, 117, 116, 117, 46, 98, 101, 47, 70, 77, 121, 121, 89, 100, 70, 83, 79, 72, 65],
            description: seq![82u8, 105, 99, 104, 97, 114, 100, 32, 70, 101, 108, 100, 109, 97, 110, 32, 111, 110, 32, 116, 104, 101, 32, 100, 101, 115, 105, 103, 110, 32, 111, 102, 32, 82, 111, 99, 44, 32, 111, 110, 32, 90, 105, 103, 32, 83, 72, 79, 87, 84, 73, 77, 69],
        },
    ]
}

/// The talks on the Roc home page.
pub fn roc_talks() -> (talks: Vec<Talk>)
    ensures
        talk_views(talks@) == roc_talk_list(),
{
    let mut talks: Vec<Talk> = Vec::new();
    let name0: [u8; 55] = [79, 117, 116, 112, 101, 114, 102, 111, 114, 109, 105, 110, 103, 32, 73, 109, 112, 101, 114, 97, 116, 105, 118, 101, 32, 119, 105, 116, 104, 32, 80, 117, 114, 101, 32, 70, 117, 110, 99, 116, 105, 111, 110, 97, 108, 32, 76, 97, 110, 103, 117, 97, 103, 101, 115];
    let url0: [u8; 28] = [104, 116, 116, 112, 115, 58, 47, 47, 121, 111, 117, 116, 117, 46, 98, 101, 47, 118, 122, 102, 121, 52, 69, 75, 119, 71, 95, 89];
    let description0: [u8; 36] = [82, 105, 99, 104, 97, 114, 100, 32, 70, 101, 108, 100, 109, 97, 110, 32, 97, 116, 32, 83, 116, 114, 97, 110, 103, 101, 32, 76, 111, 111, 112, 32, 50, 48, 50, 49];
    assert(name0@ =~= roc_talk_list()[0].name);
    assert(url0@ =~= roc_talk_list()[0].url);
    assert(description0@ =~= roc_talk_list()[0].description);
    talks.push(new_talk(name0.as_slice(), url0.as_slice(), description0.as_slice()));
    let name1: [u8; 23] = [82, 111, 99, 32, 97, 116, 32, 72, 97, 110, 100, 109, 97, 100, 101, 32, 83, 101, 97, 116, 116, 108, 101];
    let url1: [u8; 43] = [104, 116, 116, 112, 115, 58, 47, 47, 109, 101, 100, 105, 97, 46, 104, 97, 110, 100, 109, 97, 100, 101, 45, 115, 101, 97, 116, 116, 108, 101, 46, 99, 111, 109, 47, 114, 111, 99, 45, 108, 97, 110, 103];
    let description1: [u8; 40] = [82, 105, 99, 104, 97, 114, 100, 32, 70, 101, 108, 100, 109, 97, 110, 32, 97, 116, 32, 72, 97, 110, 100, 109, 97, 100, 101, 32, 83, 101, 97, 116, 116, 108, 101, 32, 50, 48, 50, 49];
    assert(name1@ =~= roc_talk_list()[1].name);
    assert(url1@ =~= roc_talk_list()[1].url);
    assert(description1@ =~= roc_talk_list()[1].description);
    talks.push(new_talk(name1.as_slice(), url1.as_slice(), description1.as_slice()));
    let name2: [u8; 19] = [82, 111, 99, 32, 111, 110, 32, 90, 105, 103, 32, 83, 72, 79, 87, 84, 73, 77, 69];
    let url2: [u8; 28] = [104, 116, 116, 112, 115, 58, 47, 47, 121, 111, 117, 116, 117, 46, 98, 101, 47, 70, 77, 121, 121, 89, 100, 70, 83, 79, 72, 65];
    let description2: [u8; 53] = [82, 105, 99, 104, 97, 114, 100, 32, 70, 101, 108, 100, 109, 97, 110, 32, 111, 110, 32, 116, 104, 101, 32, 100, 101, 115, 105, 103, 110, 32, 111, 102, 32, 82, 111, 99, 44, 32, 111, 110, 32, 90, 105, 103, 32, 83, 72, 79, 87, 84, 73, 77, 69];
    assert(name2@ =~= roc_talk_list()[2].name);
    assert(url2@ =~= roc_talk_list()[2].url);
    assert(description2@ =~= roc_talk_list()[2].description);
    talks.push(new_talk(name2.as_slice(), url2.as_slice(), description2.as_slice()));
    assert(talk_views(talks@) =~= roc_talk_list());
    talks
}

/// Adding a talk to the list adds one item, just before the page tail:
/// `<li><a href="<url>"><name></a>: <description></li>`; the rest of the
/// page stays as it was.
pub proof fn lemma_home_page_push(talks: Seq<TalkView>, t: TalkView)
    ensures
        home_page(talks.push(t)) == page_head() + talk_items(talks) + (seq![
            60u8,
            108,
            105,
            62,
            60,
            97,
            32,
            104,
            114,
            101,
            102,
            61,
            34,
        ] + t.url + seq![34u8, 62] + t.name + seq![60u8, 47, 97, 62, 58, 32] + t.description
            + seq![60u8, 47, 108, 105, 62]) + page_tail(),
        home_page(Seq::<TalkView>::empty()) == page_head() + page_tail(),
        page_tail() == seq![60u8, 47, 117, 108, 62, 60, 47, 98, 111, 100, 121, 62, 60, 47, 104, 116, 109, 108, 62],
{
    assert(talks.push(t).drop_last() =~= talks);
    assert(item_open() =~= seq![60u8, 108, 105, 62, 60, 97, 32, 104, 114, 101, 102, 61, 34]);
    assert(talk_items(Seq::<TalkView>::empty()) =~= Seq::<u8>::empty());
    assert(page_head() + Seq::<u8>::empty() =~= page_head());
}

} // verus!
