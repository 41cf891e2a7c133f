//! The sweep logic: turning fetched feed documents into notifications.
//!
//! The caller fetches each subscribed URL and hands the raw bytes in; this
//! module parses them as a syndication feed, keeps the items published
//! strictly after the last sweep, formats each as a one-line notification,
//! and keeps every failure local: a body that does not parse, or a fetch
//! that never produced one, contributes nothing and disturbs nothing else.

use vstd::prelude::*;

use crate::states::RunState;

verus! {

broadcast use vstd::seq_lib::group_seq_lib_default;

/// One feed item, reduced to the fields the notification format reads.
pub struct FeedItem {
    pub title: Option<String>,
    pub description: Option<String>,
    pub link: Option<String>,
    /// The publication timestamp as it appeared in the document, RFC 2822.
    pub pub_date: Option<String>,
}

/// A parsed feed: its items, in document order.
pub struct Feed {
    pub items: Vec<FeedItem>,
}

/// The mathematical value of a `FeedItem`.
pub ghost struct FeedItemV {
    pub title: Option<Seq<char>>,
    pub description: Option<Seq<char>>,
    pub link: Option<Seq<char>>,
    pub pub_date: Option<Seq<char>>,
}

impl View for FeedItem {
    type V = FeedItemV;

    open spec fn view(&self) -> FeedItemV {
        FeedItemV {
            title: self.title.deep_view(),
            description: self.description.deep_view(),
            link: self.link.deep_view(),
            pub_date: self.pub_date.deep_view(),
        }
    }
}

impl DeepView for FeedItem {
    type V = FeedItemV;

    open spec fn deep_view(&self) -> FeedItemV {
        self@
    }
}

impl View for Feed {
    type V = Seq<FeedItemV>;

    open spec fn view(&self) -> Seq<FeedItemV> {
        self.items.deep_view()
    }
}

// ---------------------------------------------------------------------------
// Trusted boundary: the feed parser and the timestamp parser
// ---------------------------------------------------------------------------

/// What feed bytes parse to: nothing if they are not a well-formed feed
/// document, else the items with their title, description, link and
/// publication-date fields.
pub uninterp spec fn feed_of(b: Seq<u8>) -> Option<Seq<FeedItemV>>;

/// Whether feed bytes both parse and pass structural schema validation.
pub uninterp spec fn feed_valid(b: Seq<u8>) -> bool;

/// What an RFC 2822 timestamp string denotes, in epoch milliseconds, if it
/// is well-formed.
pub uninterp spec fn rfc2822_epoch_of(s: Seq<char>) -> Option<i64>;

/// Relies on `rss::Channel::read_from`: the parse of a feed document is a
/// function of the bytes alone, and the items' `title`, `description`,
/// `link` and `pub_date` fields are carried over unchanged.
#[verifier::external_body]
fn parse_feed(b: &Vec<u8>) -> (r: Option<Feed>)
    ensures
        (match r {
            Some(f) => feed_of(b@) == Some(f@),
            None => feed_of(b@) is None,
        }),
{
    let to_item = |i: rss::Item| FeedItem {
        title: i.title,
        description: i.description,
        link: i.link,
        pub_date: i.pub_date,
    };
    match rss::Channel::read_from(&b[..]) {
        Ok(ch) => Some(Feed { items: ch.items.into_iter().map(to_item).collect() }),
        Err(_) => None,
    }
}

/// Relies on `rss::Channel::read_from` and `rss::validation::Validate::validate`:
/// whether bytes parse as a feed and pass schema validation is a function of
/// the bytes alone.
#[verifier::external_body]
fn feed_bytes_valid(b: &Vec<u8>) -> (r: bool)
    ensures
        r == feed_valid(b@),
{
    match rss::Channel::read_from(&b[..]) {
        Ok(ch) => rss::validation::Validate::validate(&ch).is_ok(),
        Err(_) => false,
    }
}

/// Relies on `chrono::DateTime::parse_from_rfc2822` (and `timestamp_millis`):
/// what a timestamp string denotes is a function of the characters alone.
#[verifier::external_body]
fn parse_rfc2822(s: &str) -> (r: Option<i64>)
    ensures
        r == rfc2822_epoch_of(s@),
{
    match chrono::DateTime::parse_from_rfc2822(s) {
        Ok(d) => Some(d.timestamp_millis()),
        Err(_) => None,
    }
}

/// The live part of subscription validation: whether the fetched response
/// body is a schema-valid feed document.
pub fn probe_feed(body: &Vec<u8>) -> (r: bool)
    ensures
        r == feed_valid(body@),
{
    feed_bytes_valid(body)
}

// ---------------------------------------------------------------------------
// Notification selection and formatting
// ---------------------------------------------------------------------------

/// A description is shown truncated to its first 30 characters, with "..."
/// appended when something was cut.
pub open spec fn truncated_description(d: Seq<char>) -> Seq<char> {
    if d.len() > 30 {
        d.subrange(0, 30) + "..."@
    } else {
        d
    }
}

/// The one-line notification for an item:
/// "{title}: {description} - {link}", with placeholders for absent fields.
pub open spec fn format_item_spec(it: FeedItemV) -> Seq<char> {
    (match it.title {
        Some(t) => t,
        None => "<no title>"@,
    }) + ": "@ + (match it.description {
        Some(d) => truncated_description(d),
        None => "<no description>"@,
    }) + " - "@ + (match it.link {
        Some(l) => l,
        None => "<no link>"@,
    })
}

/// When an item was published, if its date field is present and well-formed.
pub open spec fn item_epoch(it: FeedItemV) -> Option<i64> {
    match it.pub_date {
        Some(d) => rfc2822_epoch_of(d),
        None => None,
    }
}

/// An item is announced exactly when its publication time is known and
/// strictly later than the last sweep.
pub open spec fn item_is_new(it: FeedItemV, last_run: i64) -> bool {
    match item_epoch(it) {
        Some(p) => p > last_run,
        None => false,
    }
}

/// The notifications a feed's items produce: the new items, in document
/// order, each formatted.
pub open spec fn notifications_spec(items: Seq<FeedItemV>, last_run: i64) -> Seq<Seq<char>> {
    items.filter(|it: FeedItemV| item_is_new(it, last_run)).map_values(
        |it: FeedItemV| format_item_spec(it),
    )
}

/// Format one item as its notification line.
fn format_item(it: &FeedItem) -> (r: String)
    ensures
        r@ == format_item_spec(it@),
{
    let mut m = match &it.title {
        Some(t) => t.clone(),
        None => String::from_str("<no title>"),
    };
    m.append(": ");
    match &it.description {
        Some(d) => {
            if d.as_str().unicode_len() > 30 {
                m.append(d.as_str().substring_char(0, 30));
                m.append("...");
            } else {
                m.append(d.as_str());
            }
        },
        None => {
            m.append("<no description>");
        },
    }
    m.append(" - ");
    match &it.link {
        Some(l) => m.append(l.as_str()),
        None => m.append("<no link>"),
    }
    proof {
        assert(m@ =~= format_item_spec(it@));
    }
    m
}

/// Whether an item is to be announced, by parsing its date field.
fn item_is_new_exec(it: &FeedItem, last_run: i64) -> (r: bool)
    ensures
        r == item_is_new(it@, last_run),
{
    match &it.pub_date {
        Some(d) => match parse_rfc2822(d.as_str()) {
            Some(p) => p > last_run,
            None => false,
        },
        None => false,
    }
}

/// The notifications of one parsed feed, in document order.
pub fn feed_notifications(feed: &Feed, last_run: i64) -> (r: Vec<String>)
    ensures
        r.deep_view() == notifications_spec(feed@, last_run),
{
    let ghost gitems = feed@;
    let mut out: Vec<String> = Vec::new();
    assert(out.deep_view() =~= notifications_spec(gitems.subrange(0, 0), last_run)) by {
        reveal_with_fuel(Seq::filter, 2);
        assert(gitems.subrange(0, 0) =~= Seq::<FeedItemV>::empty());
    }
    let mut i: usize = 0;
    while i < feed.items.len()
        invariant
            0 <= i <= feed.items.len(),
            gitems == feed@,
            gitems.len() == feed.items.len(),
            out.deep_view() == notifications_spec(gitems.subrange(0, i as int), last_run),
        decreases feed.items.len() - i,
    {
        let ghost pre = gitems.subrange(0, i as int);
        let ghost old_out = out.deep_view();
        let it = &feed.items[i];
        assert(it@ == gitems[i as int]);
        if item_is_new_exec(it, last_run) {
            let line = format_item(it);
            out.push(line);
            assert(out.deep_view() =~= old_out.push(line@));
        }
        proof {
            let post = gitems.subrange(0, i as int + 1);
            assert(post =~= pre.push(gitems[i as int]));
            seq_filter_push(pre, gitems[i as int], last_run);
            assert(out.deep_view() == notifications_spec(post, last_run));
        }
        i = i + 1;
    }
    assert(gitems.subrange(0, gitems.len() as int) =~= gitems);
    out
}

/// Filtering a sequence extended by one element keeps the earlier selection
/// and appends the element exactly when it passes.
proof fn seq_filter_push(s: Seq<FeedItemV>, x: FeedItemV, last_run: i64)
    ensures
        notifications_spec(s.push(x), last_run) == if item_is_new(x, last_run) {
            notifications_spec(s, last_run).push(format_item_spec(x))
        } else {
            notifications_spec(s, last_run)
        },
{
    let p = |it: FeedItemV| item_is_new(it, last_run);
    let f = |it: FeedItemV| format_item_spec(it);
    let t = s.push(x);
    assert(t.drop_last() =~= s);
    assert(t.last() == x);
    reveal(Seq::filter);
    if p(x) {
        assert(t.filter(p) == s.filter(p).push(x));
        assert(t.filter(p).map_values(f) =~= s.filter(p).map_values(f).push(f(x)));
    } else {
        assert(t.filter(p) == s.filter(p));
    }
}

/// Each element kept by a filter comes from somewhere in the original.
proof fn lemma_filter_element_source(
    items: Seq<FeedItemV>,
    p: spec_fn(FeedItemV) -> bool,
    k: int,
)
    requires
        0 <= k < items.filter(p).len(),
    ensures
        exists|i: int| 0 <= i < items.len() && items[i] == items.filter(p)[k],
    decreases items.len(),
{
    reveal(Seq::filter);
    if items.len() > 0 {
        let sub = items.drop_last().filter(p);
        if k < sub.len() {
            lemma_filter_element_source(items.drop_last(), p, k);
            let i = choose|i: int|
                0 <= i < items.drop_last().len() && items.drop_last()[i] == sub[k];
            assert(items[i] == items.filter(p)[k]);
        } else {
            assert(items[items.len() - 1] == items.filter(p)[k]);
        }
    }
}

/// Line `k` of a feed's notifications is the formatting of some item of the
/// feed that the cursor selected.
pub open spec fn line_has_new_source(items: Seq<FeedItemV>, last_run: i64, k: int) -> bool {
    exists|i: int|
        0 <= i < items.len() && item_is_new(#[trigger] items[i], last_run) && notifications_spec(
            items,
            last_run,
        )[k] == format_item_spec(items[i])
}

/// The sweep cursor law: a feed produces at most one line per item; every
/// announced line is the notification of an item whose publication time is
/// known and strictly later than the cursor; and every such item's line is
/// announced.
pub proof fn lemma_cursor_selects_new_items(items: Seq<FeedItemV>, last_run: i64)
    ensures
        notifications_spec(items, last_run).len() <= items.len(),
        forall|k: int|
            0 <= k < notifications_spec(items, last_run).len() ==> line_has_new_source(
                items,
                last_run,
                k,
            ),
        forall|i: int|
            0 <= i < items.len() && item_is_new(#[trigger] items[i], last_run)
                ==> notifications_spec(items, last_run).contains(format_item_spec(items[i])),
{
    let p = |it: FeedItemV| item_is_new(it, last_run);
    let f = |it: FeedItemV| format_item_spec(it);
    let fl = items.filter(p);
    let notes = notifications_spec(items, last_run);
    items.lemma_filter_len(p);
    assert forall|k: int| 0 <= k < notes.len() implies line_has_new_source(
        items,
        last_run,
        k,
    ) by {
        items.lemma_filter_pred(p, k);
        lemma_filter_element_source(items, p, k);
        let i = choose|i: int| 0 <= i < items.len() && items[i] == fl[k];
        assert(notes[k] == f(fl[k]));
        assert(item_is_new(items[i], last_run) && notes[k] == format_item_spec(items[i]));
    }
    assert forall|i: int|
        0 <= i < items.len() && item_is_new(#[trigger] items[i], last_run) implies notes.contains(
        format_item_spec(items[i]),
    ) by {
        items.lemma_filter_contains(p, i);
        let j = choose|j: int| 0 <= j < fl.len() && fl[j] == items[i];
        assert(notes[j] == f(fl[j]));
        assert(notes[j] == format_item_spec(items[i]));
    }
}

/// What the bytes of one fetched body contribute: the notifications of the
/// feed they parse to, or nothing when they do not parse.
pub open spec fn body_notifications_spec(b: Seq<u8>, last_run: i64) -> Seq<Seq<char>> {
    match feed_of(b) {
        Some(items) => notifications_spec(items, last_run),
        None => Seq::empty(),
    }
}

/// The notifications of one fetched body.
pub fn body_notifications(body: &Vec<u8>, last_run: i64) -> (r: Vec<String>)
    ensures
        r.deep_view() == body_notifications_spec(body@, last_run),
{
    match parse_feed(body) {
        Some(feed) => feed_notifications(&feed, last_run),
        None => {
            let r: Vec<String> = Vec::new();
            assert(r.deep_view() =~= Seq::<Seq<char>>::empty());
            r
        },
    }
}

/// What one fetch outcome contributes: a fetch that failed, like a body
/// that does not parse, contributes nothing.
pub open spec fn fetch_notifications_spec(fetch: Option<Seq<u8>>, last_run: i64) -> Seq<Seq<char>> {
    match fetch {
        Some(b) => body_notifications_spec(b, last_run),
        None => Seq::empty(),
    }
}

/// The notifications of one conversation's sweep: each subscription's fetch
/// outcome contributes its own notifications, in subscription order.
pub open spec fn conv_notifications_spec(bodies: Seq<Option<Seq<u8>>>, last_run: i64) -> Seq<
    Seq<char>,
>
    decreases bodies.len(),
{
    if bodies.len() == 0 {
        Seq::empty()
    } else {
        conv_notifications_spec(bodies.drop_last(), last_run) + fetch_notifications_spec(
            bodies.last(),
            last_run,
        )
    }
}

/// Sweep one conversation: `bodies[i]` is the fetched response for
/// `state.subscriptions[i]`, or nothing if that fetch failed.
pub fn conv_notifications(state: &RunState, bodies: &Vec<Option<Vec<u8>>>, last_run: i64) -> (r:
    Vec<String>)
    requires
        bodies@.len() == state.subscriptions@.len(),
    ensures
        r.deep_view() == conv_notifications_spec(bodies.deep_view(), last_run),
{
    let ghost gb = bodies.deep_view();
    let mut out: Vec<String> = Vec::new();
    assert(out.deep_view() =~= conv_notifications_spec(gb.subrange(0, 0), last_run)) by {
        assert(gb.subrange(0, 0) =~= Seq::<Option<Seq<u8>>>::empty());
    }
    let mut i: usize = 0;
    while i < bodies.len()
        invariant
            0 <= i <= bodies.len(),
            gb == bodies.deep_view(),
            gb.len() == bodies.len(),
            out.deep_view() == conv_notifications_spec(gb.subrange(0, i as int), last_run),
        decreases bodies.len() - i,
    {
        let ghost pre = gb.subrange(0, i as int);
        let ghost old_out = out.deep_view();
        assert(gb[i as int] == bodies@[i as int].deep_view());
        match &bodies[i] {
            Some(b) => {
                let mut add = body_notifications(b, last_run);
                let ghost gadd = add.deep_view();
                out.append(&mut add);
                proof {
                    assert(b.deep_view() =~= b@);
                    assert(gb[i as int] == Some(b@));
                    assert(out.deep_view() =~= old_out + gadd);
                    assert(gadd == fetch_notifications_spec(gb[i as int], last_run));
                }
            },
            None => {
                assert(out.deep_view() =~= old_out + fetch_notifications_spec(
                    gb[i as int],
                    last_run,
                ));
            },
        }
        proof {
            let post = gb.subrange(0, i as int + 1);
            assert(post.drop_last() =~= pre);
            assert(post.last() == gb[i as int]);
            assert(conv_notifications_spec(post, last_run) == conv_notifications_spec(
                pre,
                last_run,
            ) + fetch_notifications_spec(gb[i as int], last_run));
            assert(out.deep_view() == conv_notifications_spec(post, last_run));
        }
        i = i + 1;
    }
    assert(gb.subrange(0, gb.len() as int) =~= gb);
    out
}

/// Sweep many conversations: each entry of the result pairs a conversation's
/// destination with the notifications its own state and fetch outcomes
/// produce, untouched by every other entry.
pub fn sweep_notifications(convs: &Vec<(RunState, Vec<Option<Vec<u8>>>)>, last_run: i64) -> (r: Vec<
    (i64, Vec<String>),
>)
    requires
        forall|i: int|
            0 <= i < convs@.len() ==> (#[trigger] convs@[i]).1@.len()
                == convs@[i].0.subscriptions@.len(),
    ensures
        r@.len() == convs@.len(),
        forall|i: int|
            0 <= i < convs@.len() ==> (#[trigger] r@[i]).0 == convs@[i].0.chat_id && r@[i].1.deep_view()
                == conv_notifications_spec(convs@[i].1.deep_view(), last_run),
{
    let mut out: Vec<(i64, Vec<String>)> = Vec::new();
    let mut i: usize = 0;
    while i < convs.len()
        invariant
            0 <= i <= convs.len(),
            out@.len() == i,
            forall|j: int|
                0 <= j < i ==> (#[trigger] out@[j]).0 == convs@[j].0.chat_id && out@[j].1.deep_view()
                    == conv_notifications_spec(convs@[j].1.deep_view(), last_run),
            forall|j: int|
                0 <= j < convs@.len() ==> (#[trigger] convs@[j]).1@.len()
                    == convs@[j].0.subscriptions@.len(),
        decreases convs.len() - i,
    {
        let (state, bodies) = &convs[i];
        let notes = conv_notifications(state, bodies, last_run);
        out.push((state.chat_id, notes));
        i = i + 1;
    }
    out
}

// ---------------------------------------------------------------------------
// Isolation laws
// ---------------------------------------------------------------------------

/// A conversation's sweep decomposes per subscription: each fetch outcome
/// contributes its own segment, independent of its neighbours.
pub proof fn lemma_conv_decomposition(bodies: Seq<Option<Seq<u8>>>, j: int, last_run: i64)
    requires
        0 <= j < bodies.len(),
    ensures
        conv_notifications_spec(bodies, last_run) == conv_notifications_spec(
            bodies.subrange(0, j),
            last_run,
        ) + fetch_notifications_spec(bodies[j], last_run) + conv_notifications_spec(
            bodies.subrange(j + 1, bodies.len() as int),
            last_run,
        ),
    decreases bodies.len(),
{
    let n = bodies.len() as int;
    if j + 1 == n {
        assert(bodies.drop_last() =~= bodies.subrange(0, j));
        assert(bodies.subrange(j + 1, n) =~= Seq::<Option<Seq<u8>>>::empty());
        assert(conv_notifications_spec(bodies.subrange(j + 1, n), last_run)
            =~= Seq::<Seq<char>>::empty());
    } else {
        lemma_conv_decomposition(bodies.drop_last(), j, last_run);
        assert(bodies.drop_last().subrange(0, j) =~= bodies.subrange(0, j));
        assert(bodies.drop_last()[j] == bodies[j]);
        assert(bodies.drop_last().subrange(j + 1, n - 1) =~= bodies.subrange(j + 1, n - 1));
        let tail = bodies.subrange(j + 1, n);
        assert(tail.drop_last() =~= bodies.subrange(j + 1, n - 1));
        assert(tail.last() == bodies.last());
    }
}

/// One failed fetch is isolated: its subscription contributes nothing, and
/// every other subscription's notifications stand exactly as they would.
pub proof fn lemma_failed_fetch_isolated(bodies: Seq<Option<Seq<u8>>>, j: int, last_run: i64)
    requires
        0 <= j < bodies.len(),
        bodies[j] is None,
    ensures
        conv_notifications_spec(bodies, last_run) == conv_notifications_spec(
            bodies.subrange(0, j),
            last_run,
        ) + conv_notifications_spec(bodies.subrange(j + 1, bodies.len() as int), last_run),
{
    lemma_conv_decomposition(bodies, j, last_run);
    assert(fetch_notifications_spec(bodies[j], last_run) =~= Seq::<Seq<char>>::empty());
    assert(conv_notifications_spec(bodies.subrange(0, j), last_run) + Seq::<Seq<char>>::empty()
        =~= conv_notifications_spec(bodies.subrange(0, j), last_run));
}

/// Conversations are isolated from one another in a sweep: what one
/// conversation's sweep produces is a function of its own fetch outcomes
/// alone, so any failure elsewhere — a fetch, a parse, a whole conversation —
/// leaves it untouched.
pub proof fn lemma_conversation_isolation(
    xs: Seq<Seq<Option<Seq<u8>>>>,
    ys: Seq<Seq<Option<Seq<u8>>>>,
    j: int,
    last_run: i64,
)
    requires
        0 <= j < xs.len(),
        0 <= j < ys.len(),
        xs[j] == ys[j],
    ensures
        conv_notifications_spec(xs[j], last_run) == conv_notifications_spec(ys[j], last_run),
{
}

} // verus!
