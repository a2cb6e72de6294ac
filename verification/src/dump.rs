//! Reading pages out of a MediaWiki XML dump.
//!
//! The XML is read elsewhere, event by event; [`DumpReader`] decides what
//! each event means: it takes the wiki's base URL from `<siteinfo>`,
//! collects the fields of each `<page>`, and yields the pages whose
//! namespace is among those asked for.
use vstd::prelude::*;

use quick_xml::Error as XmlReadError;

use crate::error::{Error, ErrorView};
use crate::numbers::{parse_i32, parse_i32_spec, parse_u64, parse_u64_spec};
use crate::text::{chars_of, copy_range, same_chars, string_of};

verus! {

/// A Wikipedia article extracted from the XML dump.
#[derive(Debug, Clone)]
pub struct Article {
    /// The unique page identifier.
    pub id: u64,
    /// The page title.
    pub title: String,
    /// The namespace number (0 for main articles, 1 for talk pages, etc.).
    pub namespace: i32,
    /// The raw wikitext content of the page.
    pub text: String,
}

/// An article as plain values.
pub struct ArticleView {
    pub id: u64,
    pub title: Seq<char>,
    pub namespace: i32,
    pub text: Seq<char>,
}

impl View for Article {
    type V = ArticleView;

    open spec fn view(&self) -> ArticleView {
        ArticleView { id: self.id, title: self.title@, namespace: self.namespace, text: self.text@ }
    }
}

/// One event of the XML reader, as the dump reader sees it.
#[derive(Debug)]
pub enum XmlEvent {
    /// A start tag, by its local name.
    Start(String),
    /// An end tag, by its local name.
    End(String),
    /// Decoded text content.
    Text(String),
    /// Text content that could not be decoded, with the decoder's message.
    UndecodableText(String),
    /// A CDATA section, decoded.
    CData(String),
    /// The end of the document.
    Eof,
    /// An error of the XML reader.
    ReaderError(XmlReadError),
    /// Any other event (empty elements, declarations, comments, ...).
    Other,
}

/// What the reader needs or yields after an event.
#[derive(Debug)]
pub enum DumpStep {
    /// Nothing to yield yet: hand over the next event.
    NeedEvent,
    /// The next article.
    Article(Article),
    /// A page that was skipped, and why. Pages outside the namespaces asked
    /// for are passed over without a step of their own.
    Skipped(PageSkip),
    /// An error to report to the caller.
    Failed(Error),
    /// The dump is exhausted.
    Finished,
}

/// Why a page was skipped.
#[derive(Debug)]
pub enum PageSkip {
    /// The page's namespace was asked for, but it has no page `<id>`.
    MissingId,
    /// The text of `<ns>`, which is not an `i32`.
    InvalidNamespace(String),
    /// The text of the page's `<id>`, which is not a `u64`.
    InvalidId(String),
    /// Text inside the page that could not be decoded: the enclosing tag
    /// and the decoder's message.
    UndecodableText(String, String),
    /// The document ended inside the page.
    UnexpectedEof,
    /// The XML reader failed inside the page.
    ReaderError(XmlReadError),
}

/// The fields collected so far from the page being read.
pub struct PageState {
    pub title: String,
    pub id: Option<u64>,
    pub ns: Option<i32>,
    pub text: String,
    pub current_tag: String,
    pub in_revision: bool,
    pub page_id_captured: bool,
}

/// Where the reader is in the dump.
pub enum Phase {
    /// Before the `<siteinfo>` header has been looked for.
    Init,
    /// Inside `<siteinfo>`; whether inside its `<base>`.
    SiteInfo(bool),
    /// Between pages.
    Scan,
    /// Inside a `<page>`.
    Page(PageState),
}

/// Streaming reader of articles, filtered by namespace.
pub struct DumpReader {
    namespaces: Vec<i32>,
    url_base: String,
    phase: Phase,
}

/// A page as plain values.
pub struct PageView {
    pub title: Seq<char>,
    pub id: Option<u64>,
    pub ns: Option<i32>,
    pub text: Seq<char>,
    pub current_tag: Seq<char>,
    pub in_revision: bool,
    pub page_id_captured: bool,
}

/// A phase as plain values.
pub enum PhaseView {
    Init,
    SiteInfo(bool),
    Scan,
    Page(PageView),
}

/// The reader's state as plain values.
pub struct DumpView {
    pub namespaces: Seq<i32>,
    pub url_base: Seq<char>,
    pub phase: PhaseView,
}

/// Why a page was skipped, as plain values.
pub enum SkipView {
    MissingId,
    InvalidNamespace(Seq<char>),
    InvalidId(Seq<char>),
    UndecodableText(Seq<char>, Seq<char>),
    UnexpectedEof,
    ReaderError(XmlReadError),
}

/// A step's outcome as plain values.
pub enum StepView {
    NeedEvent,
    Article(ArticleView),
    Skipped(SkipView),
    Failed(ErrorView),
    Finished,
}

impl View for PageState {
    type V = PageView;

    open spec fn view(&self) -> PageView {
        PageView {
            title: self.title@,
            id: self.id,
            ns: self.ns,
            text: self.text@,
            current_tag: self.current_tag@,
            in_revision: self.in_revision,
            page_id_captured: self.page_id_captured,
        }
    }
}

impl View for Phase {
    type V = PhaseView;

    open spec fn view(&self) -> PhaseView {
        match self {
            Phase::Init => PhaseView::Init,
            Phase::SiteInfo(b) => PhaseView::SiteInfo(*b),
            Phase::Scan => PhaseView::Scan,
            Phase::Page(p) => PhaseView::Page(p@),
        }
    }
}

impl View for DumpReader {
    type V = DumpView;

    closed spec fn view(&self) -> DumpView {
        DumpView { namespaces: self.namespaces@, url_base: self.url_base@, phase: self.phase@ }
    }
}

impl View for PageSkip {
    type V = SkipView;

    open spec fn view(&self) -> SkipView {
        match self {
            PageSkip::MissingId => SkipView::MissingId,
            PageSkip::InvalidNamespace(v) => SkipView::InvalidNamespace(v@),
            PageSkip::InvalidId(v) => SkipView::InvalidId(v@),
            PageSkip::UndecodableText(t, m) => SkipView::UndecodableText(t@, m@),
            PageSkip::UnexpectedEof => SkipView::UnexpectedEof,
            PageSkip::ReaderError(e) => SkipView::ReaderError(*e),
        }
    }
}

impl View for DumpStep {
    type V = StepView;

    open spec fn view(&self) -> StepView {
        match self {
            DumpStep::NeedEvent => StepView::NeedEvent,
            DumpStep::Article(a) => StepView::Article(a@),
            DumpStep::Skipped(k) => StepView::Skipped(k@),
            DumpStep::Failed(e) => StepView::Failed(e@),
            DumpStep::Finished => StepView::Finished,
        }
    }
}

/// The index of the last `c` in `s`, if any.
pub open spec fn last_index_of(s: Seq<char>, c: char) -> Option<int>
    decreases s.len(),
{
    if s.len() == 0 {
        None
    } else if s.last() == c {
        Some(s.len() - 1)
    } else {
        last_index_of(s.drop_last(), c)
    }
}

/// The wiki's base URL taken from the text of `<base>`: the text up to its
/// last `/` (which drops the page name), or the whole text if it has none.
pub open spec fn site_base(text: Seq<char>) -> Seq<char> {
    match last_index_of(text, '/') {
        Some(p) => text.take(p),
        None => text,
    }
}

/// The state of a page that has just begun.
pub open spec fn new_page() -> PageView {
    PageView {
        title: Seq::empty(),
        id: None,
        ns: None,
        text: Seq::empty(),
        current_tag: Seq::empty(),
        in_revision: false,
        page_id_captured: false,
    }
}

/// `d` between pages.
pub open spec fn scanning(d: DumpView) -> DumpView {
    DumpView { phase: PhaseView::Scan, ..d }
}

/// `d` inside the page `p`.
pub open spec fn in_page(d: DumpView, p: PageView) -> DumpView {
    DumpView { phase: PhaseView::Page(p), ..d }
}

/// The end of a page: the page is yielded when its namespace (0 when it has
/// none) is among those asked for and it has an id. A page of another
/// namespace is passed over; one without an id is skipped, with that reason.
pub open spec fn finish_page(d: DumpView, p: PageView) -> (DumpView, StepView) {
    let namespace = match p.ns {
        Some(n) => n,
        None => 0,
    };
    if !d.namespaces.contains(namespace) {
        (scanning(d), StepView::NeedEvent)
    } else {
        match p.id {
            None => (scanning(d), StepView::Skipped(SkipView::MissingId)),
            Some(id) => (
                scanning(d),
                StepView::Article(ArticleView { id, title: p.title, namespace, text: p.text }),
            ),
        }
    }
}

/// Text inside a page: it fills the field of the enclosing tag. A `<ns>` or
/// page `<id>` that is not a number ends the page, which is skipped.
pub open spec fn page_text(d: DumpView, p: PageView, value: Seq<char>) -> (DumpView, StepView) {
    if p.current_tag == "title"@ {
        (in_page(d, PageView { title: value, ..p }), StepView::NeedEvent)
    } else if p.current_tag == "ns"@ {
        match parse_i32_spec(value) {
            Some(n) => (in_page(d, PageView { ns: Some(n), ..p }), StepView::NeedEvent),
            None => (scanning(d), StepView::Skipped(SkipView::InvalidNamespace(value))),
        }
    } else if p.current_tag == "id"@ && !p.in_revision && !p.page_id_captured {
        match parse_u64_spec(value) {
            Some(i) => (
                in_page(d, PageView { id: Some(i), page_id_captured: true, ..p }),
                StepView::NeedEvent,
            ),
            None => (scanning(d), StepView::Skipped(SkipView::InvalidId(value))),
        }
    } else if p.current_tag == "text"@ && p.in_revision {
        (in_page(d, PageView { text: value, ..p }), StepView::NeedEvent)
    } else {
        (d, StepView::NeedEvent)
    }
}

/// An event inside a page. Errors inside a page end it; the page is
/// skipped, with the error as the reason.
pub open spec fn page_step(d: DumpView, p: PageView, e: XmlEvent) -> (DumpView, StepView) {
    match e {
        XmlEvent::Start(name) => (
            in_page(
                d,
                PageView {
                    current_tag: name@,
                    in_revision: if name@ == "revision"@ { true } else { p.in_revision },
                    ..p
                },
            ),
            StepView::NeedEvent,
        ),
        XmlEvent::End(name) => if name@ == "page"@ {
            finish_page(d, p)
        } else {
            (
                in_page(
                    d,
                    PageView {
                        current_tag: Seq::empty(),
                        in_revision: if name@ == "revision"@ { false } else { p.in_revision },
                        ..p
                    },
                ),
                StepView::NeedEvent,
            )
        },
        XmlEvent::Text(value) => page_text(d, p, value@),
        XmlEvent::UndecodableText(msg) => (
            scanning(d),
            StepView::Skipped(SkipView::UndecodableText(p.current_tag, msg@)),
        ),
        XmlEvent::CData(value) => if p.current_tag == "text"@ && p.in_revision {
            (in_page(d, PageView { text: value@, ..p }), StepView::NeedEvent)
        } else {
            (d, StepView::NeedEvent)
        },
        XmlEvent::Eof => (scanning(d), StepView::Skipped(SkipView::UnexpectedEof)),
        XmlEvent::ReaderError(err) => (scanning(d), StepView::Skipped(SkipView::ReaderError(err))),
        XmlEvent::Other => (d, StepView::NeedEvent),
    }
}

/// What one event does to the reader and what it yields.
///
/// Before the first page the reader looks for `<siteinfo>`; a `<page>`
/// start ends the search and begins that page. Inside `<siteinfo>`, the text of `<base>` gives the base
/// URL. Between pages a `<page>` start begins a page and the end of the
/// document finishes the dump. Reader errors outside a page, a `<base>`
/// text that cannot be decoded and a document that ends inside
/// `<siteinfo>` are reported.
pub open spec fn step_spec(d: DumpView, e: XmlEvent) -> (DumpView, StepView) {
    match d.phase {
        PhaseView::Init => match e {
            XmlEvent::Start(name) => if name@ == "siteinfo"@ {
                (DumpView { phase: PhaseView::SiteInfo(false), ..d }, StepView::NeedEvent)
            } else if name@ == "page"@ {
                (in_page(d, new_page()), StepView::NeedEvent)
            } else {
                (d, StepView::NeedEvent)
            },
            XmlEvent::Eof => (scanning(d), StepView::NeedEvent),
            XmlEvent::ReaderError(err) => (scanning(d), StepView::Failed(ErrorView::XmlReader(err))),
            _ => (d, StepView::NeedEvent),
        },
        PhaseView::SiteInfo(in_base) => match e {
            XmlEvent::Start(name) => if name@ == "base"@ {
                (DumpView { phase: PhaseView::SiteInfo(true), ..d }, StepView::NeedEvent)
            } else {
                (d, StepView::NeedEvent)
            },
            XmlEvent::Text(value) => if in_base {
                (DumpView { url_base: site_base(value@), ..d }, StepView::NeedEvent)
            } else {
                (d, StepView::NeedEvent)
            },
            XmlEvent::UndecodableText(msg) => if in_base {
                (
                    scanning(d),
                    StepView::Failed(ErrorView::Xml("failed to decode base text: "@ + msg@)),
                )
            } else {
                (d, StepView::NeedEvent)
            },
            XmlEvent::End(name) => if name@ == "base"@ {
                (DumpView { phase: PhaseView::SiteInfo(false), ..d }, StepView::NeedEvent)
            } else if name@ == "siteinfo"@ {
                (scanning(d), StepView::NeedEvent)
            } else {
                (d, StepView::NeedEvent)
            },
            XmlEvent::Eof => (
                scanning(d),
                StepView::Failed(ErrorView::Xml("unexpected EOF while parsing siteinfo"@)),
            ),
            XmlEvent::ReaderError(err) => (scanning(d), StepView::Failed(ErrorView::XmlReader(err))),
            _ => (d, StepView::NeedEvent),
        },
        PhaseView::Scan => match e {
            XmlEvent::Start(name) => if name@ == "page"@ {
                (in_page(d, new_page()), StepView::NeedEvent)
            } else {
                (d, StepView::NeedEvent)
            },
            XmlEvent::Eof => (d, StepView::Finished),
            XmlEvent::ReaderError(err) => (d, StepView::Failed(ErrorView::XmlReader(err))),
            _ => (d, StepView::NeedEvent),
        },
        PhaseView::Page(p) => page_step(d, p, e),
    }
}

/// The text up to the last `/` of `text` (see [`site_base`]).
fn base_of(text: String) -> (r: String)
    ensures
        r@ == site_base(text@),
{
    let v = chars_of(text.as_str());
    let mut i = v.len();
    assert(v@.take(v@.len() as int) =~= v@);
    while i > 0 && v[i - 1] != '/'
        invariant
            i <= v@.len(),
            v@ == text@,
            last_index_of(v@, '/') == last_index_of(v@.take(i as int), '/'),
        decreases i,
    {
        assert(v@.take(i as int).drop_last() =~= v@.take(i - 1));
        i = i - 1;
    }
    if i == 0 {
        assert(last_index_of(v@.take(0), '/') is None);
        text
    } else {
        let prefix = copy_range(v.as_slice(), 0, i - 1);
        assert(prefix@ =~= v@.take(i - 1));
        string_of(prefix.as_slice())
    }
}

/// The state of a page that has just begun (see [`new_page`]).
fn fresh_page() -> (p: PageState)
    ensures
        p@ == new_page(),
{
    PageState {
        title: String::new(),
        id: None,
        ns: None,
        text: String::new(),
        current_tag: String::new(),
        in_revision: false,
        page_id_captured: false,
    }
}

impl DumpReader {
    /// Creates a reader that yields only articles whose namespace is in
    /// `namespaces`.
    pub fn new(namespaces: &[i32]) -> (r: Self)
        ensures
            r@ == (DumpView { namespaces: namespaces@, url_base: Seq::empty(), phase: PhaseView::Init }),
    {
        let mut ns: Vec<i32> = Vec::new();
        let mut i: usize = 0;
        while i < namespaces.len()
            invariant
                i <= namespaces@.len(),
                ns@ == namespaces@.take(i as int),
            decreases namespaces@.len() - i,
        {
            ns.push(namespaces[i]);
            assert(namespaces@.take(i + 1) =~= namespaces@.take(i as int).push(namespaces@[i as int]));
            i = i + 1;
        }
        assert(namespaces@.take(namespaces@.len() as int) =~= namespaces@);
        DumpReader { namespaces: ns, url_base: String::new(), phase: Phase::Init }
    }

    /// The base URL taken from `<siteinfo><base>`; empty until the header
    /// has been read, or if the dump has none.
    pub fn url_base(&self) -> (s: &str)
        ensures
            s@ == self@.url_base,
    {
        self.url_base.as_str()
    }

    /// Whether `namespace` is among those asked for.
    fn wants(&self, namespace: i32) -> (b: bool)
        ensures
            b == self@.namespaces.contains(namespace),
    {
        let mut i: usize = 0;
        while i < self.namespaces.len()
            invariant
                i <= self.namespaces@.len(),
                forall|j: int| 0 <= j < i ==> self.namespaces@[j] != namespace,
            decreases self.namespaces@.len() - i,
        {
            if self.namespaces[i] == namespace {
                assert(self.namespaces@[i as int] == namespace);
                return true;
            }
            i = i + 1;
        }
        false
    }

    /// Handles the end of the page `p` (see [`finish_page`]).
    fn end_page(&mut self, p: PageState) -> (out: DumpStep)
        requires
            old(self)@.phase == PhaseView::Scan,
        ensures
            (final(self)@, out@) == finish_page(old(self)@, p@),
    {
        let namespace = match p.ns {
            Some(n) => n,
            None => 0,
        };
        if !self.wants(namespace) {
            return DumpStep::NeedEvent;
        }
        match p.id {
            None => DumpStep::Skipped(PageSkip::MissingId),
            Some(id) => DumpStep::Article(Article { id, title: p.title, namespace, text: p.text }),
        }
    }

    /// Handles text inside the page `p` (see [`page_text`]).
    fn text_in_page(&mut self, p: PageState, value: String) -> (out: DumpStep)
        requires
            old(self)@.phase == PhaseView::Scan,
        ensures
            (final(self)@, out@) == page_text(in_page(old(self)@, p@), p@, value@),
    {
        let mut p = p;
        if same_chars(p.current_tag.as_str(), "title") {
            p.title = value;
            self.phase = Phase::Page(p);
        } else if same_chars(p.current_tag.as_str(), "ns") {
            let v = chars_of(value.as_str());
            match parse_i32(v.as_slice()) {
                Some(n) => {
                    p.ns = Some(n);
                    self.phase = Phase::Page(p);
                },
                None => {
                    return DumpStep::Skipped(PageSkip::InvalidNamespace(value));
                },
            }
        } else if same_chars(p.current_tag.as_str(), "id") && !p.in_revision && !p.page_id_captured {
            let v = chars_of(value.as_str());
            match parse_u64(v.as_slice()) {
                Some(i) => {
                    p.id = Some(i);
                    p.page_id_captured = true;
                    self.phase = Phase::Page(p);
                },
                None => {
                    return DumpStep::Skipped(PageSkip::InvalidId(value));
                },
            }
        } else if same_chars(p.current_tag.as_str(), "text") && p.in_revision {
            p.text = value;
            self.phase = Phase::Page(p);
        } else {
            self.phase = Phase::Page(p);
        }
        DumpStep::NeedEvent
    }

    /// Handles an event inside the page `p` (see [`page_step`]).
    fn event_in_page(&mut self, p: PageState, event: XmlEvent) -> (out: DumpStep)
        requires
            old(self)@.phase == PhaseView::Scan,
        ensures
            (final(self)@, out@) == page_step(in_page(old(self)@, p@), p@, event),
    {
        let mut p = p;
        match event {
            XmlEvent::Start(name) => {
                if same_chars(name.as_str(), "revision") {
                    p.in_revision = true;
                }
                p.current_tag = name;
                self.phase = Phase::Page(p);
                DumpStep::NeedEvent
            },
            XmlEvent::End(name) => {
                if same_chars(name.as_str(), "page") {
                    self.end_page(p)
                } else {
                    if same_chars(name.as_str(), "revision") {
                        p.in_revision = false;
                    }
                    p.current_tag = String::new();
                    self.phase = Phase::Page(p);
                    DumpStep::NeedEvent
                }
            },
            XmlEvent::Text(value) => self.text_in_page(p, value),
            XmlEvent::CData(value) => {
                if same_chars(p.current_tag.as_str(), "text") && p.in_revision {
                    p.text = value;
                }
                self.phase = Phase::Page(p);
                DumpStep::NeedEvent
            },
            XmlEvent::Other => {
                self.phase = Phase::Page(p);
                DumpStep::NeedEvent
            },
            XmlEvent::UndecodableText(msg) => DumpStep::Skipped(
                PageSkip::UndecodableText(p.current_tag, msg),
            ),
            XmlEvent::Eof => DumpStep::Skipped(PageSkip::UnexpectedEof),
            XmlEvent::ReaderError(err) => DumpStep::Skipped(PageSkip::ReaderError(err)),
        }
    }

    /// Takes the next XML event and says what it means (see
    /// [`step_spec`]).
    pub fn step(&mut self, event: XmlEvent) -> (out: DumpStep)
        ensures
            (final(self)@, out@) == step_spec(old(self)@, event),
    {
        let mut phase = Phase::Scan;
        std::mem::swap(&mut phase, &mut self.phase);
        match phase {
            Phase::Init => match event {
                XmlEvent::Start(name) => {
                    if same_chars(name.as_str(), "siteinfo") {
                        self.phase = Phase::SiteInfo(false);
                    } else if same_chars(name.as_str(), "page") {
                        self.phase = Phase::Page(fresh_page());
                    } else {
                        self.phase = Phase::Init;
                    }
                    DumpStep::NeedEvent
                },
                XmlEvent::Eof => DumpStep::NeedEvent,
                XmlEvent::ReaderError(err) => DumpStep::Failed(Error::XmlReader(err)),
                _ => {
                    self.phase = Phase::Init;
                    DumpStep::NeedEvent
                },
            },
            Phase::SiteInfo(in_base) => match event {
                XmlEvent::Start(name) => {
                    self.phase = Phase::SiteInfo(in_base || same_chars(name.as_str(), "base"));
                    DumpStep::NeedEvent
                },
                XmlEvent::Text(value) => {
                    if in_base {
                        self.url_base = base_of(value);
                    }
                    self.phase = Phase::SiteInfo(in_base);
                    DumpStep::NeedEvent
                },
                XmlEvent::UndecodableText(msg) => {
                    if in_base {
                        let mut m = String::from_str("failed to decode base text: ");
                        m.append(msg.as_str());
                        DumpStep::Failed(Error::Xml(m))
                    } else {
                        self.phase = Phase::SiteInfo(in_base);
                        DumpStep::NeedEvent
                    }
                },
                XmlEvent::End(name) => {
                    if same_chars(name.as_str(), "base") {
                        self.phase = Phase::SiteInfo(false);
                    } else if !same_chars(name.as_str(), "siteinfo") {
                        self.phase = Phase::SiteInfo(in_base);
                    }
                    DumpStep::NeedEvent
                },
                XmlEvent::Eof => DumpStep::Failed(
                    Error::Xml(String::from_str("unexpected EOF while parsing siteinfo")),
                ),
                XmlEvent::ReaderError(err) => DumpStep::Failed(Error::XmlReader(err)),
                _ => {
                    self.phase = Phase::SiteInfo(in_base);
                    DumpStep::NeedEvent
                },
            },
            Phase::Scan => match event {
                XmlEvent::Start(name) => {
                    if same_chars(name.as_str(), "page") {
                        self.phase = Phase::Page(fresh_page());
                    }
                    DumpStep::NeedEvent
                },
                XmlEvent::Eof => DumpStep::Finished,
                XmlEvent::ReaderError(err) => DumpStep::Failed(Error::XmlReader(err)),
                _ => DumpStep::NeedEvent,
            },
            Phase::Page(p) => self.event_in_page(p, event),
        }
    }
}

/// Feeds `events` to a reader in state `d`: the final state and what each
/// event yielded.
pub open spec fn run(d: DumpView, events: Seq<XmlEvent>) -> (DumpView, Seq<StepView>)
    decreases events.len(),
{
    if events.len() == 0 {
        (d, Seq::empty())
    } else {
        let (d1, out) = step_spec(d, events[0]);
        let (d2, outs) = run(d1, events.drop_first());
        (d2, seq![out] + outs)
    }
}

/// Over any sequence of events, one step is taken per event, the
/// namespaces asked for never change, and every article yielded has one of
/// them.
pub proof fn law_run_only_wanted_namespaces(d: DumpView, events: Seq<XmlEvent>)
    ensures
        run(d, events).0.namespaces == d.namespaces,
        run(d, events).1.len() == events.len(),
        forall|k: int|
            0 <= k < events.len() ==> (#[trigger] run(d, events).1[k] matches StepView::Article(a)
                ==> d.namespaces.contains(a.namespace)),
    decreases events.len(),
{
    if events.len() > 0 {
        let (d1, out) = step_spec(d, events[0]);
        let rest = events.drop_first();
        law_namespaces_unchanged(d, events[0]);
        law_only_wanted_namespaces(d, events[0]);
        law_run_only_wanted_namespaces(d1, rest);
        let outs = run(d, events).1;
        assert forall|k: int| 0 <= k < events.len() implies (#[trigger] outs[k] matches StepView::Article(a)
            ==> d.namespaces.contains(a.namespace)) by {
            if k > 0 {
                assert(outs[k] == run(d1, rest).1[k - 1]);
            }
        }
    }
}

/// A malformed page is skipped, never reported as an error: errors are
/// reported only for events outside a page.
pub proof fn law_no_error_inside_a_page(d: DumpView, e: XmlEvent)
    requires
        d.phase is Page,
    ensures
        !(step_spec(d, e).1 is Failed),
{
}

/// The dump is finished only at the end of the document, and only between
/// pages.
pub proof fn law_finished_only_at_end(d: DumpView, e: XmlEvent)
    ensures
        step_spec(d, e).1 is Finished ==> e is Eof && d.phase is Scan,
{
}

/// Only articles whose namespace was asked for are yielded.
pub proof fn law_only_wanted_namespaces(d: DumpView, e: XmlEvent)
    ensures
        step_spec(d, e).1 matches StepView::Article(a) ==> d.namespaces.contains(a.namespace),
{
}

/// The namespaces asked for never change.
pub proof fn law_namespaces_unchanged(d: DumpView, e: XmlEvent)
    ensures
        step_spec(d, e).0.namespaces == d.namespaces,
{
}

/// The base URL changes only inside `<siteinfo>`.
pub proof fn law_base_only_from_siteinfo(d: DumpView, e: XmlEvent)
    requires
        !(d.phase is SiteInfo),
    ensures
        step_spec(d, e).0.url_base == d.url_base,
{
}

/// A page's id is the first `<id>` outside `<revision>`: once taken, it
/// stays while the page is read.
pub proof fn law_page_id_taken_once(d: DumpView, e: XmlEvent)
    requires
        d.phase matches PhaseView::Page(p) && p.page_id_captured,
    ensures
        step_spec(d, e).0.phase matches PhaseView::Page(q) ==> q.id == d.phase->Page_0.id
            && q.page_id_captured,
{
}

/// Once the dump is finished it stays finished: the end of the document
/// between pages leaves the reader as it was.
pub proof fn law_finished_stays_finished(d: DumpView, e: XmlEvent)
    requires
        step_spec(d, e).1 is Finished,
    ensures
        step_spec(d, e).0 == d,
        d.phase is Scan,
{
}

/// The events of one page: a title, a namespace, the page id, and a
/// revision with its own id and the page text.
pub open spec fn page_events(
    tags: (String, String, String, String, String, String),
    title: String,
    ns: String,
    id: String,
    revision_id: String,
    text: String,
) -> Seq<XmlEvent> {
    let (page, title_tag, ns_tag, id_tag, revision, text_tag) = tags;
    seq![
        XmlEvent::Start(page),
        XmlEvent::Start(title_tag),
        XmlEvent::Text(title),
        XmlEvent::End(title_tag),
        XmlEvent::Start(ns_tag),
        XmlEvent::Text(ns),
        XmlEvent::End(ns_tag),
        XmlEvent::Start(id_tag),
        XmlEvent::Text(id),
        XmlEvent::End(id_tag),
        XmlEvent::Start(revision),
        XmlEvent::Start(id_tag),
        XmlEvent::Text(revision_id),
        XmlEvent::End(id_tag),
        XmlEvent::Start(text_tag),
        XmlEvent::Text(text),
        XmlEvent::End(text_tag),
        XmlEvent::End(revision),
        XmlEvent::End(page),
    ]
}

/// Whether `tags` are the tag names `page`, `title`, `ns`, `id`,
/// `revision` and `text`.
pub open spec fn page_tags(tags: (String, String, String, String, String, String)) -> bool {
    &&& tags.0@ == "page"@
    &&& tags.1@ == "title"@
    &&& tags.2@ == "ns"@
    &&& tags.3@ == "id"@
    &&& tags.4@ == "revision"@
    &&& tags.5@ == "text"@
}

/// Running events whose steps are known: from `states[k]` the remaining
/// events end in the last state and yield the remaining outputs.
proof fn lemma_run_chain(states: Seq<DumpView>, outs: Seq<StepView>, events: Seq<XmlEvent>, k: int)
    requires
        0 <= k <= events.len(),
        states.len() == events.len() + 1,
        outs.len() == events.len(),
        forall|j: int| 0 <= j < events.len() ==> step_spec(states[j], #[trigger] events[j]) == (
        states[j + 1], outs[j]),
    ensures
        run(states[k], events.skip(k)) == (states.last(), outs.skip(k)),
    decreases events.len() - k,
{
    if k == events.len() {
        assert(events.skip(k) =~= Seq::<XmlEvent>::empty());
        assert(outs.skip(k) =~= Seq::<StepView>::empty());
    } else {
        lemma_run_chain(states, outs, events, k + 1);
        assert(events.skip(k)[0] == events[k]);
        assert(events.skip(k).drop_first() =~= events.skip(k + 1));
        assert(seq![outs[k]] + outs.skip(k + 1) =~= outs.skip(k));
    }
}

/// Reading a page between pages, or before any `<siteinfo>`, yields at its
/// end the article with the page's title, namespace, id (not the
/// revision's) and text, when its namespace was asked for, and nothing
/// before; the reader is then between pages.
pub proof fn law_page_yields_article(
    d: DumpView,
    tags: (String, String, String, String, String, String),
    title: String,
    ns: String,
    id: String,
    revision_id: String,
    text: String,
)
    requires
        d.phase is Scan || d.phase is Init,
        page_tags(tags),
        parse_i32_spec(ns@) is Some,
        parse_u64_spec(id@) is Some,
    ensures
        ({
            let (d2, outs) = run(d, page_events(tags, title, ns, id, revision_id, text));
            let n = parse_i32_spec(ns@).unwrap();
            &&& d2 == scanning(d)
            &&& outs.len() == 19
            &&& forall|k: int| 0 <= k < 18 ==> outs[k] is NeedEvent
            &&& outs[18] == if d.namespaces.contains(n) {
                StepView::Article(
                    ArticleView { id: parse_u64_spec(id@).unwrap(), title: title@, namespace: n, text: text@ },
                )
            } else {
                StepView::NeedEvent
            }
        }),
{
    reveal_strlit("page");
    reveal_strlit("title");
    reveal_strlit("ns");
    reveal_strlit("id");
    reveal_strlit("revision");
    reveal_strlit("text");
    reveal_strlit("siteinfo");
    assert("siteinfo"@.len() == 8);
    assert("page"@.len() == 4 && "title"@.len() == 5 && "ns"@.len() == 2 && "id"@.len() == 2);
    assert("revision"@.len() == 8 && "text"@.len() == 4);
    assert("page"@ != "text"@) by {
        assert("page"@[0] != "text"@[0]);
    }
    assert("ns"@ != "id"@) by {
        assert("ns"@[0] != "id"@[0]);
    }
    let ev = page_events(tags, title, ns, id, revision_id, text);
    let n = parse_i32_spec(ns@).unwrap();
    let i = parse_u64_spec(id@).unwrap();
    let e: Seq<char> = Seq::empty();
    let p0 = new_page();
    let p1 = PageView { current_tag: "title"@, ..p0 };
    let p2 = PageView { title: title@, ..p1 };
    let p3 = PageView { current_tag: e, ..p2 };
    let p4 = PageView { current_tag: "ns"@, ..p3 };
    let p5 = PageView { ns: Some(n), ..p4 };
    let p6 = PageView { current_tag: e, ..p5 };
    let p7 = PageView { current_tag: "id"@, ..p6 };
    let p8 = PageView { id: Some(i), page_id_captured: true, ..p7 };
    let p9 = PageView { current_tag: e, ..p8 };
    let p10 = PageView { current_tag: "revision"@, in_revision: true, ..p9 };
    let p11 = PageView { current_tag: "id"@, ..p10 };
    let p12 = PageView { current_tag: e, ..p11 };
    let p13 = PageView { current_tag: "text"@, ..p12 };
    let p14 = PageView { text: text@, ..p13 };
    let p15 = PageView { current_tag: e, ..p14 };
    let p16 = PageView { current_tag: e, in_revision: false, ..p15 };
    let last = finish_page(in_page(d, p16), p16);
    let states = seq![
        d,
        in_page(d, p0),
        in_page(d, p1),
        in_page(d, p2),
        in_page(d, p3),
        in_page(d, p4),
        in_page(d, p5),
        in_page(d, p6),
        in_page(d, p7),
        in_page(d, p8),
        in_page(d, p9),
        in_page(d, p10),
        in_page(d, p11),
        in_page(d, p11),
        in_page(d, p12),
        in_page(d, p13),
        in_page(d, p14),
        in_page(d, p15),
        in_page(d, p16),
        last.0,
    ];
    let nothing = StepView::NeedEvent;
    let outs = seq![
        nothing,
        nothing,
        nothing,
        nothing,
        nothing,
        nothing,
        nothing,
        nothing,
        nothing,
        nothing,
        nothing,
        nothing,
        nothing,
        nothing,
        nothing,
        nothing,
        nothing,
        nothing,
        last.1,
    ];
    assert forall|j: int| 0 <= j < ev.len() implies step_spec(states[j], #[trigger] ev[j]) == (
    states[j + 1], outs[j]) by {
        if j == 0 {
            assert(ev[j] == XmlEvent::Start(tags.0));
            assert(step_spec(states[j], ev[j]) == (states[j + 1], outs[j]));
        } else if j == 1 {
            assert(ev[j] == XmlEvent::Start(tags.1));
            assert(step_spec(states[j], ev[j]) == (states[j + 1], outs[j]));
        } else if j == 2 {
            assert(ev[j] == XmlEvent::Text(title));
            assert(step_spec(states[j], ev[j]) == (states[j + 1], outs[j]));
        } else if j == 3 {
            assert(ev[j] == XmlEvent::End(tags.1));
            assert(step_spec(states[j], ev[j]) == (states[j + 1], outs[j]));
        } else if j == 4 {
            assert(ev[j] == XmlEvent::Start(tags.2));
            assert(step_spec(states[j], ev[j]) == (states[j + 1], outs[j]));
        } else if j == 5 {
            assert(ev[j] == XmlEvent::Text(ns));
            assert(step_spec(states[j], ev[j]) == (states[j + 1], outs[j]));
        } else if j == 6 {
            assert(ev[j] == XmlEvent::End(tags.2));
            assert(step_spec(states[j], ev[j]) == (states[j + 1], outs[j]));
        } else if j == 7 {
            assert(ev[j] == XmlEvent::Start(tags.3));
            assert(step_spec(states[j], ev[j]) == (states[j + 1], outs[j]));
        } else if j == 8 {
            assert(ev[j] == XmlEvent::Text(id));
            assert(step_spec(states[j], ev[j]) == (states[j + 1], outs[j]));
        } else if j == 9 {
            assert(ev[j] == XmlEvent::End(tags.3));
            assert(step_spec(states[j], ev[j]) == (states[j + 1], outs[j]));
        } else if j == 10 {
            assert(ev[j] == XmlEvent::Start(tags.4));
            assert(step_spec(states[j], ev[j]) == (states[j + 1], outs[j]));
        } else if j == 11 {
            assert(ev[j] == XmlEvent::Start(tags.3));
            assert(step_spec(states[j], ev[j]) == (states[j + 1], outs[j]));
        } else if j == 12 {
            assert(ev[j] == XmlEvent::Text(revision_id));
            assert(step_spec(states[j], ev[j]) == (states[j + 1], outs[j]));
        } else if j == 13 {
            assert(ev[j] == XmlEvent::End(tags.3));
            assert(step_spec(states[j], ev[j]) == (states[j + 1], outs[j]));
        } else if j == 14 {
            assert(ev[j] == XmlEvent::Start(tags.5));
            assert(step_spec(states[j], ev[j]) == (states[j + 1], outs[j]));
        } else if j == 15 {
            assert(ev[j] == XmlEvent::Text(text));
            assert(step_spec(states[j], ev[j]) == (states[j + 1], outs[j]));
        } else if j == 16 {
            assert(ev[j] == XmlEvent::End(tags.5));
            assert(step_spec(states[j], ev[j]) == (states[j + 1], outs[j]));
        } else if j == 17 {
            assert(ev[j] == XmlEvent::End(tags.4));
            assert(step_spec(states[j], ev[j]) == (states[j + 1], outs[j]));
        } else if j == 18 {
            assert(ev[j] == XmlEvent::End(tags.0));
            assert(step_spec(states[j], ev[j]) == (states[j + 1], outs[j]));
        }
    }
    lemma_run_chain(states, outs, ev, 0);
    assert(ev.skip(0) =~= ev);
    assert(outs.skip(0) =~= outs);
}

/// The articles among the outcomes of a run, in order.
pub open spec fn articles_of(outs: Seq<StepView>) -> Seq<ArticleView>
    decreases outs.len(),
{
    if outs.len() == 0 {
        Seq::empty()
    } else {
        match outs.last() {
            StepView::Article(a) => articles_of(outs.drop_last()).push(a),
            _ => articles_of(outs.drop_last()),
        }
    }
}

/// The events of a document made of `pages` (title, namespace, page id,
/// revision id and text of each), one after another.
pub open spec fn doc_events(
    tags: (String, String, String, String, String, String),
    pages: Seq<(String, String, String, String, String)>,
) -> Seq<XmlEvent>
    decreases pages.len(),
{
    if pages.len() == 0 {
        Seq::empty()
    } else {
        let p = pages.last();
        doc_events(tags, pages.drop_last()) + page_events(tags, p.0, p.1, p.2, p.3, p.4)
    }
}

/// The articles that the document of `pages` should yield: those pages
/// whose namespace is in `namespaces`, in document order.
pub open spec fn wanted_articles(
    pages: Seq<(String, String, String, String, String)>,
    namespaces: Seq<i32>,
) -> Seq<ArticleView>
    decreases pages.len(),
{
    if pages.len() == 0 {
        Seq::empty()
    } else {
        let p = pages.last();
        let n = parse_i32_spec(p.1@).unwrap();
        let before = wanted_articles(pages.drop_last(), namespaces);
        if namespaces.contains(n) {
            before.push(
                ArticleView { id: parse_u64_spec(p.2@).unwrap(), title: p.0@, namespace: n, text: p.4@ },
            )
        } else {
            before
        }
    }
}

/// Running `a` and then `b` is running `a + b`.
proof fn lemma_run_concat(d: DumpView, a: Seq<XmlEvent>, b: Seq<XmlEvent>)
    ensures
        run(d, a + b) == (run(run(d, a).0, b).0, run(d, a).1 + run(run(d, a).0, b).1),
    decreases a.len(),
{
    if a.len() == 0 {
        assert(a + b =~= b);
        assert(Seq::<StepView>::empty() + run(d, b).1 =~= run(d, b).1);
    } else {
        let (d1, out) = step_spec(d, a[0]);
        lemma_run_concat(d1, a.drop_first(), b);
        assert((a + b)[0] == a[0]);
        assert((a + b).drop_first() =~= a.drop_first() + b);
        let r1 = run(d1, a.drop_first()).1;
        let r2 = run(run(d1, a.drop_first()).0, b).1;
        assert(seq![out] + (r1 + r2) =~= (seq![out] + r1) + r2);
    }
}

/// The articles of outcomes one after another are those of each part.
proof fn lemma_articles_concat(x: Seq<StepView>, y: Seq<StepView>)
    ensures
        articles_of(x + y) == articles_of(x) + articles_of(y),
    decreases y.len(),
{
    if y.len() == 0 {
        assert(x + y =~= x);
        assert(articles_of(x) + Seq::<ArticleView>::empty() =~= articles_of(x));
    } else {
        lemma_articles_concat(x, y.drop_last());
        assert((x + y).drop_last() =~= x + y.drop_last());
        assert((x + y).last() == y.last());
        match y.last() {
            StepView::Article(a) => {
                assert((articles_of(x) + articles_of(y.drop_last())).push(a) =~= articles_of(x)
                    + articles_of(y.drop_last()).push(a));
            },
            _ => {},
        }
    }
}

/// Outcomes with no article before the last yield at most that one.
proof fn lemma_articles_at_end(outs: Seq<StepView>)
    requires
        outs.len() > 0,
        forall|k: int| 0 <= k < outs.len() - 1 ==> outs[k] is NeedEvent,
    ensures
        articles_of(outs) == match outs.last() {
            StepView::Article(a) => seq![a],
            _ => Seq::<ArticleView>::empty(),
        },
{
    lemma_no_articles(outs.drop_last());
}

/// Outcomes that are all `NeedEvent` yield no article.
proof fn lemma_no_articles(outs: Seq<StepView>)
    requires
        forall|k: int| 0 <= k < outs.len() ==> outs[k] is NeedEvent,
    ensures
        articles_of(outs) == Seq::<ArticleView>::empty(),
    decreases outs.len(),
{
    if outs.len() > 0 {
        lemma_no_articles(outs.drop_last());
    }
}

/// A document of well-formed pages, read from the start or between pages,
/// yields exactly the articles of the pages whose namespace was asked for,
/// in document order, and leaves the reader between pages.
pub proof fn law_document_yields_wanted_articles(
    d: DumpView,
    tags: (String, String, String, String, String, String),
    pages: Seq<(String, String, String, String, String)>,
)
    requires
        d.phase is Scan || d.phase is Init,
        page_tags(tags),
        forall|i: int|
            0 <= i < pages.len() ==> parse_i32_spec((#[trigger] pages[i]).1@) is Some && parse_u64_spec(
                pages[i].2@,
            ) is Some,
    ensures
        run(d, doc_events(tags, pages)).0 == if pages.len() == 0 {
            d
        } else {
            scanning(d)
        },
        articles_of(run(d, doc_events(tags, pages)).1) == wanted_articles(pages, d.namespaces),
    decreases pages.len(),
{
    if pages.len() > 0 {
        let init = pages.drop_last();
        let p = pages.last();
        assert forall|i: int| 0 <= i < init.len() implies parse_i32_spec((#[trigger] init[i]).1@) is Some
            && parse_u64_spec(init[i].2@) is Some by {
            assert(init[i] == pages[i]);
        }
        assert(pages[pages.len() - 1] == p);
        law_document_yields_wanted_articles(d, tags, init);
        let first = doc_events(tags, init);
        let last = page_events(tags, p.0, p.1, p.2, p.3, p.4);
        lemma_run_concat(d, first, last);
        let mid = run(d, first).0;
        law_page_yields_article(mid, tags, p.0, p.1, p.2, p.3, p.4);
        let outs2 = run(mid, last).1;
        lemma_articles_at_end(outs2);
        lemma_articles_concat(run(d, first).1, outs2);
        assert(mid.namespaces == d.namespaces);
        assert(scanning(mid) == scanning(d));
    } else {
        assert(doc_events(tags, pages) =~= Seq::<XmlEvent>::empty());
    }
}

/// Whether `e`, read between pages, is passed over: anything but a
/// `<page>` start, the end of the document or a reader error.
pub open spec fn passed_over(e: XmlEvent) -> bool {
    &&& !(e matches XmlEvent::Start(n) && n@ == "page"@)
    &&& !(e is Eof)
    &&& !(e is ReaderError)
}

/// The fields of a page after the events `inner` inside its tags, starting
/// from `p`; `None` when one of them ends the page early (its `</page>`, an
/// error, a number that does not parse, or the end of the document).
pub open spec fn page_fold(d: DumpView, p: PageView, inner: Seq<XmlEvent>) -> Option<PageView>
    decreases inner.len(),
{
    if inner.len() == 0 {
        Some(p)
    } else {
        let (d1, out) = step_spec(in_page(d, p), inner[0]);
        match (d1.phase, out) {
            (PhaseView::Page(q), StepView::NeedEvent) => page_fold(d, q, inner.drop_first()),
            _ => None,
        }
    }
}

/// What a page whose tags hold `inner` yields at its `</page>`: its article
/// when its namespace was asked for and it has an id (see [`finish_page`]).
pub open spec fn page_outcome(d: DumpView, inner: Seq<XmlEvent>) -> StepView {
    match page_fold(d, new_page(), inner) {
        Some(q) => finish_page(in_page(d, q), q).1,
        None => StepView::NeedEvent,
    }
}

/// A page: a start tag, the events `inner`, and an end tag, named `tag`.
pub open spec fn wrap_page(tag: String, inner: Seq<XmlEvent>) -> Seq<XmlEvent> {
    seq![XmlEvent::Start(tag)] + inner + seq![XmlEvent::End(tag)]
}

/// The events of a document: for each entry, the events before a page and
/// then the page with the inner events given.
pub open spec fn document_events(tag: String, pages: Seq<(Seq<XmlEvent>, Seq<XmlEvent>)>) -> Seq<XmlEvent>
    decreases pages.len(),
{
    if pages.len() == 0 {
        Seq::empty()
    } else {
        let last = pages.last();
        document_events(tag, pages.drop_last()) + last.0 + wrap_page(tag, last.1)
    }
}

/// What the pages of a document yield, one outcome per page, in order.
pub open spec fn page_outcomes(d: DumpView, pages: Seq<(Seq<XmlEvent>, Seq<XmlEvent>)>) -> Seq<StepView>
    decreases pages.len(),
{
    if pages.len() == 0 {
        Seq::empty()
    } else {
        page_outcomes(d, pages.drop_last()).push(page_outcome(d, pages.last().1))
    }
}

/// The outcomes that yield something (all but `NeedEvent`), in order.
pub open spec fn yielded(outs: Seq<StepView>) -> Seq<StepView>
    decreases outs.len(),
{
    if outs.len() == 0 {
        Seq::empty()
    } else if outs.last() is NeedEvent {
        yielded(outs.drop_last())
    } else {
        yielded(outs.drop_last()).push(outs.last())
    }
}

/// What is yielded of outcomes one after another is what each part yields.
proof fn lemma_yielded_concat(x: Seq<StepView>, y: Seq<StepView>)
    ensures
        yielded(x + y) == yielded(x) + yielded(y),
    decreases y.len(),
{
    if y.len() == 0 {
        assert(x + y =~= x);
        assert(yielded(x) + Seq::<StepView>::empty() =~= yielded(x));
    } else {
        lemma_yielded_concat(x, y.drop_last());
        assert((x + y).drop_last() =~= x + y.drop_last());
        assert((x + y).last() == y.last());
        if !(y.last() is NeedEvent) {
            assert((yielded(x) + yielded(y.drop_last())).push(y.last()) =~= yielded(x) + yielded(
                y.drop_last(),
            ).push(y.last()));
        }
    }
}

/// Outcomes that are all `NeedEvent` yield nothing.
proof fn lemma_yields_nothing(outs: Seq<StepView>)
    requires
        forall|k: int| 0 <= k < outs.len() ==> outs[k] is NeedEvent,
    ensures
        yielded(outs) == Seq::<StepView>::empty(),
    decreases outs.len(),
{
    if outs.len() > 0 {
        lemma_yields_nothing(outs.drop_last());
    }
}

/// Events passed over between pages leave the reader as it was and yield
/// nothing.
proof fn lemma_gap(d: DumpView, gap: Seq<XmlEvent>)
    requires
        d.phase is Scan,
        forall|k: int| 0 <= k < gap.len() ==> passed_over(#[trigger] gap[k]),
    ensures
        run(d, gap).0 == d,
        yielded(run(d, gap).1) == Seq::<StepView>::empty(),
        forall|k: int| 0 <= k < run(d, gap).1.len() ==> run(d, gap).1[k] is NeedEvent,
    decreases gap.len(),
{
    if gap.len() > 0 {
        let rest = gap.drop_first();
        assert forall|k: int| 0 <= k < rest.len() implies passed_over(#[trigger] rest[k]) by {
            assert(rest[k] == gap[k + 1]);
        }
        assert(passed_over(gap[0]));
        lemma_gap(d, rest);
        let outs = run(d, gap).1;
        assert forall|k: int| 0 <= k < outs.len() implies outs[k] is NeedEvent by {
            if k > 0 {
                assert(outs[k] == run(d, rest).1[k - 1]);
            }
        }
        lemma_yields_nothing(outs);
    } else {
        lemma_yields_nothing(run(d, gap).1);
    }
}

/// The events inside a page that does not end early keep the reader in the
/// page, with the fields that [`page_fold`] gives, and yield nothing.
proof fn lemma_inside_page(d: DumpView, p: PageView, inner: Seq<XmlEvent>)
    requires
        page_fold(d, p, inner) is Some,
    ensures
        run(in_page(d, p), inner).0 == in_page(d, page_fold(d, p, inner).unwrap()),
        run(in_page(d, p), inner).1.len() == inner.len(),
        forall|k: int| 0 <= k < inner.len() ==> run(in_page(d, p), inner).1[k] is NeedEvent,
    decreases inner.len(),
{
    if inner.len() > 0 {
        let (d1, out) = step_spec(in_page(d, p), inner[0]);
        let q1 = d1.phase->Page_0;
        law_namespaces_unchanged(in_page(d, p), inner[0]);
        law_base_only_from_siteinfo(in_page(d, p), inner[0]);
        assert(d1 == in_page(d, q1));
        let rest = inner.drop_first();
        lemma_inside_page(d, q1, rest);
        let outs = run(in_page(d, p), inner).1;
        assert forall|k: int| 0 <= k < inner.len() implies outs[k] is NeedEvent by {
            if k > 0 {
                assert(outs[k] == run(in_page(d, q1), rest).1[k - 1]);
            }
        }
    }
}

/// A page read between pages, whose events do not end it early, yields its
/// outcome at `</page>` and nothing before, and leaves the reader as it
/// was.
proof fn lemma_page(d: DumpView, tag: String, inner: Seq<XmlEvent>)
    requires
        d.phase is Scan,
        tag@ == "page"@,
        page_fold(d, new_page(), inner) is Some,
    ensures
        run(d, wrap_page(tag, inner)).0 == d,
        yielded(run(d, wrap_page(tag, inner)).1) == yielded(seq![page_outcome(d, inner)]),
{
    let q = page_fold(d, new_page(), inner).unwrap();
    let start: Seq<XmlEvent> = seq![XmlEvent::Start(tag)];
    let end: Seq<XmlEvent> = seq![XmlEvent::End(tag)];
    let d0 = in_page(d, new_page());
    assert(start.drop_first() =~= Seq::<XmlEvent>::empty());
    assert(start[0] == XmlEvent::Start(tag));
    assert(step_spec(d, start[0]) == (d0, StepView::NeedEvent));
    assert(run(d0, start.drop_first()) == (d0, Seq::<StepView>::empty()));
    assert(seq![StepView::NeedEvent] + Seq::<StepView>::empty() =~= seq![StepView::NeedEvent]);
    assert(run(d, start) == (d0, seq![StepView::NeedEvent]));
    lemma_inside_page(d, new_page(), inner);
    let d1 = in_page(d, q);
    assert(end.drop_first() =~= Seq::<XmlEvent>::empty());
    let fin = finish_page(d1, q);
    assert(end[0] == XmlEvent::End(tag));
    assert(step_spec(d1, end[0]) == fin);
    assert(run(fin.0, end.drop_first()) == (fin.0, Seq::<StepView>::empty()));
    assert(seq![fin.1] + Seq::<StepView>::empty() =~= seq![fin.1]);
    assert(run(d1, end) == (fin.0, seq![fin.1]));
    assert(fin.0 == d);
    lemma_run_concat(d, start, inner);
    lemma_run_concat(d, start + inner, end);
    let outs_inner = run(d0, inner).1;
    lemma_yields_nothing(outs_inner);
    lemma_yields_nothing(seq![StepView::NeedEvent]);
    lemma_yielded_concat(seq![StepView::NeedEvent], outs_inner);
    lemma_yielded_concat(seq![StepView::NeedEvent] + outs_inner, seq![fin.1]);
    assert(Seq::<StepView>::empty() + Seq::<StepView>::empty() =~= Seq::<StepView>::empty());
    assert(Seq::<StepView>::empty() + yielded(seq![fin.1]) =~= yielded(seq![fin.1]));
}

/// Any document read between pages (that is, after `<siteinfo>`) yields, in
/// document order, exactly what its pages yield, one outcome per page: the
/// article of each page whose namespace was asked for and that has an id,
/// a skip for such a page without an id, and nothing for the others.
/// Between pages anything but a `<page>` start, the end of the document or
/// a reader error may come, and inside a page anything that does not end it
/// early; the reader is between pages again at the end.
pub proof fn law_document_yields_its_pages(
    d: DumpView,
    tag: String,
    pages: Seq<(Seq<XmlEvent>, Seq<XmlEvent>)>,
)
    requires
        d.phase is Scan,
        tag@ == "page"@,
        forall|i: int, k: int|
            0 <= i < pages.len() && 0 <= k < pages[i].0.len() ==> passed_over(#[trigger] pages[i].0[k]),
        forall|i: int| 0 <= i < pages.len() ==> page_fold(d, new_page(), (#[trigger] pages[i]).1) is Some,
    ensures
        run(d, document_events(tag, pages)).0 == d,
        yielded(run(d, document_events(tag, pages)).1) == yielded(page_outcomes(d, pages)),
    decreases pages.len(),
{
    if pages.len() == 0 {
        assert(document_events(tag, pages) =~= Seq::<XmlEvent>::empty());
    } else {
        let init = pages.drop_last();
        let last = pages.last();
        assert(pages[pages.len() - 1] == last);
        assert forall|i: int, k: int| 0 <= i < init.len() && 0 <= k < init[i].0.len() implies passed_over(
            #[trigger] init[i].0[k],
        ) by {
            assert(init[i] == pages[i]);
        }
        assert forall|i: int| 0 <= i < init.len() implies page_fold(d, new_page(), (#[trigger] init[i]).1) is Some by {
            assert(init[i] == pages[i]);
        }
        assert forall|k: int| 0 <= k < last.0.len() implies passed_over(#[trigger] last.0[k]) by {
            assert(passed_over(pages[pages.len() - 1].0[k]));
        }
        law_document_yields_its_pages(d, tag, init);
        let before = document_events(tag, init);
        lemma_gap(d, last.0);
        lemma_page(d, tag, last.1);
        lemma_run_concat(d, before, last.0);
        lemma_run_concat(d, before + last.0, wrap_page(tag, last.1));
        lemma_yielded_concat(run(d, before).1, run(d, last.0).1);
        lemma_yielded_concat(run(d, before).1 + run(d, last.0).1, run(d, wrap_page(tag, last.1)).1);
        assert(yielded(run(d, before).1) + Seq::<StepView>::empty() =~= yielded(run(d, before).1));
        let prev = page_outcomes(d, init);
        let o = page_outcome(d, last.1);
        lemma_yielded_concat(prev, seq![o]);
        assert(prev.push(o) =~= prev + seq![o]);
    }
}

/// The end of `<siteinfo>` leaves the reader between pages.
pub proof fn law_siteinfo_end_starts_pages(d: DumpView, name: String)
    requires
        d.phase is SiteInfo,
        name@ == "siteinfo"@,
    ensures
        step_spec(d, XmlEvent::End(name)).0.phase is Scan,
        step_spec(d, XmlEvent::End(name)).1 is NeedEvent,
{
    reveal_strlit("base");
    reveal_strlit("siteinfo");
    assert("base"@.len() != "siteinfo"@.len());
}

/// Only the text of `<base>` inside `<siteinfo>` sets the base URL: an
/// event that changes the base URL is text read inside `<base>`, and the
/// base URL becomes that text up to its last `/`.
pub proof fn law_base_set_only_by_base_text(d: DumpView, e: XmlEvent)
    ensures
        step_spec(d, e).0.url_base != d.url_base ==> d.phase == PhaseView::SiteInfo(true),
        step_spec(d, e).0.url_base != d.url_base ==> (e matches XmlEvent::Text(v) && step_spec(
            d,
            e,
        ).0.url_base == site_base(v@)),
        d.phase == PhaseView::SiteInfo(true) ==> (e matches XmlEvent::Text(v) ==> step_spec(d, e).0.url_base
            == site_base(v@)),
{
}

/// The page name is stripped from the URL in `<base>`: the base URL taken
/// from `u/name`, where `name` holds no `/`, is `u`; from a text without
/// `/` it is the whole text.
pub proof fn law_site_base_strips_page_name(u: Seq<char>, name: Seq<char>)
    requires
        forall|i: int| 0 <= i < name.len() ==> name[i] != '/',
    ensures
        site_base(u + seq!['/'] + name) == u,
        site_base(name) == name,
{
    lemma_last_slash(u + seq!['/'], name);
    lemma_last_slash(Seq::empty(), name);
    assert(Seq::<char>::empty() + name =~= name);
    assert((u + seq!['/'] + name).take(u.len() as int) =~= u);
}

/// The last `/` of `a + b`, where `b` holds no `/`, is that of `a`.
proof fn lemma_last_slash(a: Seq<char>, b: Seq<char>)
    requires
        forall|i: int| 0 <= i < b.len() ==> b[i] != '/',
    ensures
        last_index_of(a + b, '/') == last_index_of(a, '/'),
    decreases b.len(),
{
    if b.len() == 0 {
        assert(a + b =~= a);
    } else {
        assert((a + b).drop_last() =~= a + b.drop_last());
        assert((a + b).last() == b.last());
        lemma_last_slash(a, b.drop_last());
    }
}

/// Events that are not a `<base>` start, read inside `<siteinfo>` but not
/// inside its `<base>`, or outside `<siteinfo>`, leave the base URL as it
/// was.
proof fn lemma_base_kept(d: DumpView, events: Seq<XmlEvent>)
    requires
        d.phase == PhaseView::SiteInfo(false) || !(d.phase is SiteInfo),
        forall|k: int| 0 <= k < events.len() ==> !(#[trigger] events[k] matches XmlEvent::Start(n) && n@ == "base"@),
    ensures
        run(d, events).0.url_base == d.url_base,
    decreases events.len(),
{
    if events.len() > 0 {
        let rest = events.drop_first();
        assert(!(events[0] matches XmlEvent::Start(n) && n@ == "base"@));
        let d1 = step_spec(d, events[0]).0;
        law_base_set_only_by_base_text(d, events[0]);
        assert(d1.phase == PhaseView::SiteInfo(false) || !(d1.phase is SiteInfo));
        assert forall|k: int| 0 <= k < rest.len() implies !(#[trigger] rest[k] matches XmlEvent::Start(n) && n@
            == "base"@) by {
            assert(rest[k] == events[k + 1]);
        }
        lemma_base_kept(d1, rest);
    }
}

/// Reading `<base>B</base>` inside `<siteinfo>` sets the base URL to `B` up
/// to its last `/`, and nothing read after it but another `<base>` changes
/// it: not the other elements of `<siteinfo>` and their text, nor its end,
/// nor the pages that follow.
pub proof fn law_base_from_siteinfo(d: DumpView, base_tag: String, b: String, rest: Seq<XmlEvent>)
    requires
        d.phase == PhaseView::SiteInfo(false),
        base_tag@ == "base"@,
        forall|k: int| 0 <= k < rest.len() ==> !(#[trigger] rest[k] matches XmlEvent::Start(n) && n@ == "base"@),
    ensures
        run(d, seq![XmlEvent::Start(base_tag), XmlEvent::Text(b), XmlEvent::End(base_tag)] + rest).0.url_base
            == site_base(b@),
{
    let head: Seq<XmlEvent> = seq![XmlEvent::Start(base_tag), XmlEvent::Text(b), XmlEvent::End(base_tag)];
    let d1 = DumpView { phase: PhaseView::SiteInfo(true), ..d };
    let d2 = DumpView { url_base: site_base(b@), ..d1 };
    let d3 = DumpView { phase: PhaseView::SiteInfo(false), ..d2 };
    assert(step_spec(d, head[0]).0 == d1);
    assert(step_spec(d1, head[1]).0 == d2);
    assert(step_spec(d2, head[2]).0 == d3);
    let h1 = head.drop_first();
    let h2 = h1.drop_first();
    let h3 = h2.drop_first();
    assert(h3 =~= Seq::<XmlEvent>::empty());
    assert(h1[0] == head[1]);
    assert(h2[0] == head[2]);
    assert(run(d3, h3).0 == d3);
    assert(run(d2, h2).0 == run(d3, h3).0);
    assert(run(d1, h1).0 == run(d2, h2).0);
    assert(run(d, head).0 == run(d1, h1).0);
    assert(run(d, head).0 == d3);
    lemma_run_concat(d, head, rest);
    lemma_base_kept(d3, rest);
}

} // verus!
