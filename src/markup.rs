//! Inline markup events, and the rewriting of the destinations they carry.
use crate::destination::{is_root_relative, rewrite_destination, rewritten};
use pulldown_cmark::{CowStr, Event, LinkType, Tag};
use vstd::prelude::*;

verus! {

#[verifier::external_type_specification]
#[verifier::external_body]
pub struct ExEvent<'a>(Event<'a>);

#[verifier::external_type_specification]
#[verifier::external_body]
pub struct ExCowStr<'a>(CowStr<'a>);

#[verifier::external_type_specification]
#[verifier::external_body]
pub struct ExLinkType(LinkType);

/// The parts of a link or image start event; only `url` is ever changed.
pub struct LinkTarget<'a> {
    pub link_type: LinkType,
    pub url: String,
    pub title: CowStr<'a>,
    pub id: CowStr<'a>,
}

/// A parsed markup event, with the start of a link or image laid open.
pub enum InlineEvent<'a> {
    Link(LinkTarget<'a>),
    Image(LinkTarget<'a>),
    Other(Event<'a>),
}

/// A `LinkTarget` with its destination as a sequence of characters.
pub struct LinkView<'a> {
    pub link_type: LinkType,
    pub url: Seq<char>,
    pub title: CowStr<'a>,
    pub id: CowStr<'a>,
}

/// An `InlineEvent` with its destination, if any, as a sequence of characters.
pub enum MarkupEvent<'a> {
    Link(LinkView<'a>),
    Image(LinkView<'a>),
    Other(Event<'a>),
}

impl<'a> View for LinkTarget<'a> {
    type V = LinkView<'a>;

    open spec fn view(&self) -> LinkView<'a> {
        LinkView { link_type: self.link_type, url: self.url@, title: self.title, id: self.id }
    }
}

impl<'a> View for InlineEvent<'a> {
    type V = MarkupEvent<'a>;

    open spec fn view(&self) -> MarkupEvent<'a> {
        match self {
            InlineEvent::Link(t) => MarkupEvent::Link(t@),
            InlineEvent::Image(t) => MarkupEvent::Image(t@),
            InlineEvent::Other(e) => MarkupEvent::Other(*e),
        }
    }
}

/// The views of a sequence of events.
pub open spec fn views<'a>(s: Seq<InlineEvent<'a>>) -> Seq<MarkupEvent<'a>> {
    s.map_values(|e: InlineEvent<'a>| e@)
}

/// The events of `content` under mdbook's markdown dialect, without smart
/// punctuation.
pub uninterp spec fn parsed_markup(content: Seq<char>) -> Seq<MarkupEvent<'static>>;

/// The markdown text that the serializer writes for `events`.
pub uninterp spec fn rendered_markup(events: Seq<MarkupEvent<'static>>) -> Seq<char>;

/// The destination that `e` carries, if it starts a link or an image.
pub open spec fn destination_of<'a>(e: MarkupEvent<'a>) -> Option<Seq<char>> {
    match e {
        MarkupEvent::Link(t) => Some(t.url),
        MarkupEvent::Image(t) => Some(t.url),
        MarkupEvent::Other(_) => None,
    }
}

/// `e` with its destination, if any, rewritten under `prefix`.
pub open spec fn rewritten_event<'a>(e: MarkupEvent<'a>, prefix: Seq<char>) -> MarkupEvent<'a> {
    match e {
        MarkupEvent::Link(t) => MarkupEvent::Link(LinkView { url: rewritten(t.url, prefix), ..t }),
        MarkupEvent::Image(t) => MarkupEvent::Image(LinkView { url: rewritten(t.url, prefix), ..t }),
        MarkupEvent::Other(x) => MarkupEvent::Other(x),
    }
}

/// Every event of `events` with its destination rewritten under `prefix`.
pub open spec fn rewritten_events<'a>(events: Seq<MarkupEvent<'a>>, prefix: Seq<char>) -> Seq<MarkupEvent<'a>> {
    events.map_values(|e: MarkupEvent<'a>| rewritten_event(e, prefix))
}

/// `after` is `before` but for the destination of a link or an image.
pub open spec fn same_but_destination<'a>(before: MarkupEvent<'a>, after: MarkupEvent<'a>) -> bool {
    match before {
        MarkupEvent::Link(t) => after is Link && after->Link_0 == LinkView { url: after->Link_0.url, ..t },
        MarkupEvent::Image(t) => after is Image && after->Image_0 == LinkView { url: after->Image_0.url, ..t },
        MarkupEvent::Other(x) => after == MarkupEvent::Other(x),
    }
}

/// `events` are the parsed events of some text, changed at most in the
/// destinations of links and images.
pub open spec fn parsed_up_to_destinations<'a>(events: Seq<MarkupEvent<'a>>) -> bool {
    exists|c: Seq<char>|
        #![trigger parsed_markup(c)]
        parsed_markup(c).len() == events.len() && forall|i: int|
            0 <= i < events.len() ==> same_but_destination(#[trigger] parsed_markup(c)[i], events[i])
}

/// What `content` becomes when its destinations are rewritten under `prefix`.
pub open spec fn rewritten_markup(content: Seq<char>, prefix: Seq<char>) -> Seq<char> {
    rendered_markup(rewritten_events(parsed_markup(content), prefix))
}

/// Rewrites the destination of one event; any event that is not the start of
/// a link or image passes through unchanged.
pub fn handle_link<'a>(e: InlineEvent<'a>, prefix: &str) -> (r: InlineEvent<'a>)
    ensures
        r@ == rewritten_event(e@, prefix@),
{
    match e {
        InlineEvent::Link(t) => {
            let url = rewrite_destination(t.url.as_str(), prefix);
            InlineEvent::Link(LinkTarget { link_type: t.link_type, url, title: t.title, id: t.id })
        },
        InlineEvent::Image(t) => {
            let url = rewrite_destination(t.url.as_str(), prefix);
            InlineEvent::Image(LinkTarget { link_type: t.link_type, url, title: t.title, id: t.id })
        },
        InlineEvent::Other(e) => InlineEvent::Other(e),
    }
}

/// The elements of `v` in the opposite order.
fn reversed<T>(v: Vec<T>) -> (r: Vec<T>)
    ensures
        r@ == v@.reverse(),
{
    let ghost orig = v@;
    let mut v = v;
    let mut r: Vec<T> = Vec::new();
    while v.len() > 0
        invariant
            v@.len() + r@.len() == orig.len(),
            v@ == orig.subrange(0, v@.len() as int),
            forall|j: int| 0 <= j < r@.len() ==> r@[j] == orig[orig.len() - 1 - j],
        decreases v@.len(),
    {
        let x = v.pop().unwrap();
        r.push(x);
    }
    assert(r@ =~= orig.reverse());
    r
}

/// Rewrites every destination in `events` under `prefix`, keeping the events'
/// number and order; events that start no link or image are kept as they are.
pub fn rewrite_events<'a>(events: Vec<InlineEvent<'a>>, prefix: &str) -> (r: Vec<InlineEvent<'a>>)
    ensures
        views(r@) == rewritten_events(views(events@), prefix@),
{
    let ghost orig = events@;
    let n = events.len();
    let mut rest = reversed(events);
    let mut r: Vec<InlineEvent<'a>> = Vec::new();
    while rest.len() > 0
        invariant
            rest@.len() + r@.len() == n,
            n == orig.len(),
            forall|j: int| 0 <= j < rest@.len() ==> rest@[j] == orig[n - 1 - j],
            forall|i: int|
                0 <= i < r@.len() ==> (#[trigger] r@[i])@ == rewritten_event(orig[i]@, prefix@),
        decreases rest@.len(),
    {
        let e = rest.pop().unwrap();
        let fixed = handle_link(e, prefix);
        r.push(fixed);
    }
    assert(views(r@) =~= rewritten_events(views(orig), prefix@));
    r
}

/// Relies on mdbook::utils::new_cmark_parser (without smart punctuation),
/// whose events depend on the text alone; the start of each link and image is
/// laid open, every other event is kept as it is.
#[verifier::external_body]
fn parse_markup<'a>(content: &'a str) -> (r: Vec<InlineEvent<'a>>)
    ensures
        views(r@) == parsed_markup(content@),
{
    mdbook::utils::new_cmark_parser(content, false).map(|e| match e {
        Event::Start(Tag::Link { link_type, dest_url, title, id }) => InlineEvent::Link(
            LinkTarget { link_type, url: dest_url.into_string(), title, id },
        ),
        Event::Start(Tag::Image { link_type, dest_url, title, id }) => InlineEvent::Image(
            LinkTarget { link_type, url: dest_url.into_string(), title, id },
        ),
        other => InlineEvent::Other(other),
    }).collect()
}

/// Relies on pulldown_cmark_to_cmark::cmark, whose text depends on the events
/// alone. It needs balanced start and end events, as the parser gives them,
/// and fails only when the writer does, which a `String` never does.
#[verifier::external_body]
fn render<'a>(events: Vec<InlineEvent<'a>>) -> (r: String)
    requires
        parsed_up_to_destinations(views(events@)),
    ensures
        r@ == rendered_markup(views(events@)),
{
    let mut buf = String::new();
    let _ = pulldown_cmark_to_cmark::cmark(events.into_iter().map(|i| match i {
        InlineEvent::Link(t) => Event::Start(
            Tag::Link { link_type: t.link_type, dest_url: t.url.into(), title: t.title, id: t.id },
        ),
        InlineEvent::Image(t) => Event::Start(
            Tag::Image { link_type: t.link_type, dest_url: t.url.into(), title: t.title, id: t.id },
        ),
        InlineEvent::Other(e) => e,
    }), &mut buf);
    buf
}

/// Parses `content`, rewrites every root-relative link and image destination
/// under `prefix`, and writes the events back as markdown text.
pub fn rewrite(content: &str, prefix: &str) -> (r: String)
    ensures
        r@ == rewritten_markup(content@, prefix@),
{
    let events = parse_markup(content);
    let fixed = rewrite_events(events, prefix);
    proof {
        let p = parsed_markup(content@);
        assert forall|i: int| 0 <= i < p.len() implies same_but_destination(
            #[trigger] p[i],
            views(fixed@)[i],
        ) by {
            assert(views(fixed@)[i] == rewritten_event(p[i], prefix@));
        }
        assert(parsed_up_to_destinations(views(fixed@)));
    }
    render(fixed)
}

/// When no parsed event of `content` carries a root-relative destination, the
/// rewritten text is the serializer's own writing of the parsed events,
/// whatever the prefix.
pub proof fn lemma_rewrite_without_root_relative(content: Seq<char>, prefix: Seq<char>)
    requires
        forall|i: int|
            0 <= i < parsed_markup(content).len() ==> match #[trigger] destination_of(
                parsed_markup(content)[i],
            ) {
                Some(d) => !is_root_relative(d),
                None => true,
            },
    ensures
        rewritten_markup(content, prefix) == rendered_markup(parsed_markup(content)),
{
    let p = parsed_markup(content);
    assert forall|i: int| 0 <= i < p.len() implies #[trigger] rewritten_event(p[i], prefix) == p[i] by {
        if let Some(d) = destination_of(p[i]) {
            assert(!is_root_relative(d));
        }
    }
    assert(rewritten_events(p, prefix) =~= p);
}

/// Rewriting rewritten events once more changes nothing, when the prefix does
/// not start with a separator and, if it is empty, no destination starts with
/// two separators (so that no destination of the first output is
/// root-relative).
pub proof fn lemma_rewrite_events_twice<'a>(events: Seq<MarkupEvent<'a>>, prefix: Seq<char>)
    requires
        !is_root_relative(prefix),
        prefix.len() == 0 ==> forall|i: int|
            0 <= i < events.len() ==> match #[trigger] destination_of(events[i]) {
                Some(d) => !(d.len() >= 2 && d[0] == '/' && d[1] == '/'),
                None => true,
            },
    ensures
        rewritten_events(rewritten_events(events, prefix), prefix) == rewritten_events(events, prefix),
{
    assert forall|i: int| 0 <= i < events.len() implies #[trigger] rewritten_event(
        rewritten_event(events[i], prefix),
        prefix,
    ) == rewritten_event(events[i], prefix) by {
        if let Some(d) = destination_of(events[i]) {
            crate::destination::lemma_rewritten_idempotent(d, prefix);
        }
    }
    assert(rewritten_events(rewritten_events(events, prefix), prefix) =~= rewritten_events(
        events,
        prefix,
    ));
}

} // verus!
