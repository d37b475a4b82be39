//! Rewriting of the pages that rustdoc wrote, so that they fit into the site.
use crate::text::maybe_text;
use lol_html::errors::RewritingError::MemoryLimitExceeded;
use lol_html::html_content::{ContentType, Element};
use lol_html::{ElementContentHandlers, HtmlRewriter, Selector, Settings};
use std::borrow::Cow::Owned;
use std::cell::RefCell;
use std::rc::Rc;
use vstd::prelude::*;
use vstd::string::StringExecFns;

verus! {

/// A change to an element of a page.
#[verifier::ext_equal]
pub enum Edit {
    /// Give an attribute a value.
    SetAttribute(Seq<char>, Seq<char>),
    /// Make another element of it.
    SetTagName(Seq<char>),
    /// Put markup before its content.
    Prepend(Seq<char>),
    /// Put markup behind its content.
    Append(Seq<char>),
    /// Put markup before it, behind what was put there earlier.
    Before(Seq<char>),
    /// Put markup behind it, before what was put there earlier.
    After(Seq<char>),
}

/// An element of a page that is being rewritten, as `lol_html` hands it out.
#[verifier::external_body]
pub struct PageElement<'a, 'r, 't> {
    element: &'a mut Element<'r, 't>,
}

/// The changes that were made to an element, in order.
pub uninterp spec fn edits_of(element: PageElement<'_, '_, '_>) -> Seq<Edit>;

/// The value of an attribute of an element.
pub uninterp spec fn attribute_of(
    element: PageElement<'_, '_, '_>,
    name: Seq<char>,
) -> Option<Seq<char>>;

/// Whether `name` can name an attribute or an element: it is made of lower-case letters.
pub open spec fn is_plain_name(name: Seq<char>) -> bool {
    name.len() > 0 && forall|i: int| 0 <= i < name.len() ==> 'a' <= #[trigger] name[i] <= 'z'
}

/// `Element::get_attribute` gives the value of an attribute, where the element has it.
#[verifier::external_body]
fn get_attribute(element: &PageElement<'_, '_, '_>, name: &str) -> (r: Option<String>)
    ensures
        maybe_text(r) == attribute_of(*element, name@),
{
    element.element.get_attribute(name)
}

/// `Element::set_attribute` gives an attribute a value. It fails for names that are empty or hold
/// certain signs, and never for one that is made of letters.
#[verifier::external_body]
fn set_attribute(element: &mut PageElement<'_, '_, '_>, name: &str, value: &str) -> (r: bool)
    requires
        is_plain_name(name@),
    ensures
        r,
        edits_of(*final(element)) == edits_of(*old(element)).push(
            Edit::SetAttribute(name@, value@),
        ),
{
    element.element.set_attribute(name, value).is_ok()
}

/// `Element::set_tag_name` renames an element, in its start tag and in its end tag. It fails for
/// names that are empty or hold certain signs, and never for one that is made of letters.
#[verifier::external_body]
fn set_tag_name(element: &mut PageElement<'_, '_, '_>, name: &str) -> (r: bool)
    requires
        is_plain_name(name@),
    ensures
        r,
        edits_of(*final(element)) == edits_of(*old(element)).push(Edit::SetTagName(name@)),
{
    element.element.set_tag_name(name).is_ok()
}

/// `Element::prepend` puts markup before the content of an element that can have content.
#[verifier::external_body]
fn prepend_html(element: &mut PageElement<'_, '_, '_>, html: &str)
    ensures
        edits_of(*final(element)) == edits_of(*old(element)).push(Edit::Prepend(html@)),
{
    element.element.prepend(html, ContentType::Html);
}

/// `Element::append` puts markup behind the content of an element that can have content.
#[verifier::external_body]
fn append_html(element: &mut PageElement<'_, '_, '_>, html: &str)
    ensures
        edits_of(*final(element)) == edits_of(*old(element)).push(Edit::Append(html@)),
{
    element.element.append(html, ContentType::Html);
}

/// `Element::before` puts markup before an element, behind what was put there earlier.
#[verifier::external_body]
fn put_before(element: &mut PageElement<'_, '_, '_>, html: &str)
    ensures
        edits_of(*final(element)) == edits_of(*old(element)).push(Edit::Before(html@)),
{
    element.element.before(html, ContentType::Html);
}

/// `Element::after` puts markup behind an element, before what was put there earlier.
#[verifier::external_body]
fn put_after(element: &mut PageElement<'_, '_, '_>, html: &str)
    ensures
        edits_of(*final(element)) == edits_of(*old(element)).push(Edit::After(html@)),
{
    element.element.after(html, ContentType::Html);
}

/// The class of what was the body of a page: its own, and that of the site.
pub open spec fn body_class(class: Option<Seq<char>>) -> Seq<char> {
    match class {
        Some(classes) => classes + " container-rustdoc"@,
        None => "container-rustdoc"@,
    }
}

/// The changes that make a part of a page of what was its body:
///
/// ```html
/// <body class="rustdoc-page">
///     ... topbar ...
///     <div id="rustdoc_body_wrapper" class="... container-rustdoc" tabindex="-1">
///         ... what the site puts into every page ...
///         ... rustdoc content ...
///     </div>
/// </body>
/// ```
pub open spec fn body_edits(
    class: Option<Seq<char>>,
    body_html: Seq<char>,
    topbar_html: Seq<char>,
) -> Seq<Edit> {
    seq![
        Edit::SetAttribute("class"@, body_class(class)),
        Edit::SetAttribute("id"@, "rustdoc_body_wrapper"@),
        Edit::SetAttribute("tabindex"@, "-1"@),
        Edit::SetTagName("div"@),
        Edit::Prepend(body_html),
        Edit::Before("<body class=\"rustdoc-page\">"@),
        Edit::Before(topbar_html),
        Edit::After("</body>"@),
    ]
}

/// Makes a part of a page of its body.
pub fn edit_body(element: &mut PageElement<'_, '_, '_>, body_html: &str, topbar_html: &str)
    ensures
        edits_of(*final(element)) == edits_of(*old(element)) + body_edits(
            attribute_of(*old(element), "class"@),
            body_html@,
            topbar_html@,
        ),
{
    proof {
        reveal_strlit("class");
        reveal_strlit("id");
        reveal_strlit("tabindex");
        reveal_strlit("div");
    }
    let ghost before = edits_of(*element);
    let ghost class = attribute_of(*element, "class"@);
    let klass: String = match get_attribute(element, "class") {
        Some(classes) => {
            let mut tmp: String = classes;
            tmp.append(" container-rustdoc");
            tmp
        },
        None => "container-rustdoc".to_owned(),
    };
    assert(klass@ == body_class(class));
    let _ = set_attribute(element, "class", klass.as_str());
    let _ = set_attribute(element, "id", "rustdoc_body_wrapper");
    let _ = set_attribute(element, "tabindex", "-1");
    let _ = set_tag_name(element, "div");
    prepend_html(element, body_html);
    put_before(element, "<body class=\"rustdoc-page\">");
    put_before(element, topbar_html);
    put_after(element, "</body>");
    assert(edits_of(*element) =~= before + body_edits(class, body_html@, topbar_html@));
}

/// What is done to an element.
#[derive(Debug)]
pub enum Change {
    /// Put markup behind its content.
    Append { html: String },
    /// Put markup before it.
    PutBefore { html: String },
    /// Make a part of the page of its body.
    WrapBody { body_html: String, topbar_html: String },
}

/// What a change says.
#[verifier::ext_equal]
pub enum ChangeText {
    Append(Seq<char>),
    PutBefore(Seq<char>),
    WrapBody(Seq<char>, Seq<char>),
}

impl View for Change {
    type V = ChangeText;

    open spec fn view(&self) -> ChangeText {
        match self {
            Change::Append { html } => ChangeText::Append(html@),
            Change::PutBefore { html } => ChangeText::PutBefore(html@),
            Change::WrapBody { body_html, topbar_html } => ChangeText::WrapBody(
                body_html@,
                topbar_html@,
            ),
        }
    }
}

impl ChangeText {
    /// The edits of an element with a class or without one.
    pub open spec fn edits(self, class: Option<Seq<char>>) -> Seq<Edit> {
        match self {
            ChangeText::Append(html) => seq![Edit::Append(html)],
            ChangeText::PutBefore(html) => seq![Edit::Before(html)],
            ChangeText::WrapBody(body_html, topbar_html) => body_edits(
                class,
                body_html,
                topbar_html,
            ),
        }
    }
}

impl Change {
    /// Changes an element.
    pub fn apply(&self, element: &mut PageElement<'_, '_, '_>)
        ensures
            edits_of(*final(element)) == edits_of(*old(element)) + self@.edits(
                attribute_of(*old(element), "class"@),
            ),
    {
        let ghost before = edits_of(*element);
        match self {
            Change::Append { html } => {
                append_html(element, html.as_str());
                assert(edits_of(*element) =~= before + seq![Edit::Append(html@)]);
            },
            Change::PutBefore { html } => {
                put_before(element, html.as_str());
                assert(edits_of(*element) =~= before + seq![Edit::Before(html@)]);
            },
            Change::WrapBody { body_html, topbar_html } => {
                edit_body(element, body_html.as_str(), topbar_html.as_str());
            },
        }
    }
}

/// What is done to the elements that a selector picks.
#[derive(Debug)]
pub struct Rule {
    pub selector: String,
    pub change: Change,
}

/// What a rule says.
#[verifier::ext_equal]
pub struct RuleText {
    pub selector: Seq<char>,
    pub change: ChangeText,
}

impl View for Rule {
    type V = RuleText;

    open spec fn view(&self) -> RuleText {
        RuleText { selector: self.selector@, change: self.change@ }
    }
}

/// What a list of rules says.
pub open spec fn rule_texts(rules: Seq<Rule>) -> Seq<RuleText> {
    rules.map_values(|r: Rule| r@)
}

/// The markup that the site puts into a page.
#[derive(Debug)]
pub struct PageMarkup {
    /// What goes behind everything in the head.
    pub head_html: String,
    /// The style sheet that rustdoc's own overrides in part.
    pub vendored_html: String,
    /// What goes before the content.
    pub body_html: String,
    /// The bar at the top.
    pub topbar_html: String,
}

/// The selector of the style sheets of rustdoc. Those of all its versions are named `rustdoc-` and
/// a suffix, which sets them apart from others below `rustdoc.static`.
pub open spec fn stylesheet_selector() -> Seq<char> {
    "link[rel='stylesheet'][href*='rustdoc-']"@
}

/// What the rules for a page say.
pub open spec fn page_rule_texts(markup: PageMarkup) -> Seq<RuleText> {
    seq![
        RuleText { selector: "head"@, change: ChangeText::Append(markup.head_html@) },
        RuleText {
            selector: "body"@,
            change: ChangeText::WrapBody(markup.body_html@, markup.topbar_html@),
        },
        RuleText {
            selector: stylesheet_selector(),
            change: ChangeText::PutBefore(markup.vendored_html@),
        },
    ]
}

/// The rules by which a page is rewritten.
pub fn page_rules(markup: PageMarkup) -> (r: Vec<Rule>)
    ensures
        rule_texts(r@) == page_rule_texts(markup),
{
    let rules: Vec<Rule> = vec![
        Rule { selector: "head".to_owned(), change: Change::Append { html: markup.head_html } },
        Rule {
            selector: "body".to_owned(),
            change: Change::WrapBody {
                body_html: markup.body_html,
                topbar_html: markup.topbar_html,
            },
        },
        Rule {
            selector: "link[rel='stylesheet'][href*='rustdoc-']".to_owned(),
            change: Change::PutBefore { html: markup.vendored_html },
        },
    ];
    assert(rule_texts(rules@) =~= page_rule_texts(markup));
    rules
}

/// A rewriter of `lol_html`, which is given a page piece by piece, and what it has written.
#[verifier::external_body]
pub struct PageRewriter {
    rewriter: HtmlRewriter<'static, Box<dyn FnMut(&[u8])>>,
    out: Rc<RefCell<Vec<u8>>>,
}

/// The rules that a rewriter was made with.
pub uninterp spec fn rules_of(rewriter: PageRewriter) -> Seq<RuleText>;

/// The memory, in bytes, that a rewriter was allowed.
pub uninterp spec fn limit_of(rewriter: PageRewriter) -> usize;

/// The pieces that a rewriter has taken.
pub uninterp spec fn pieces_of(rewriter: PageRewriter) -> Seq<Seq<u8>>;

/// What `HtmlRewriter::write` writes for the last of some pieces, when it has taken the others,
/// and what it reports where it does not take that one, which makes the page ambiguous.
pub uninterp spec fn written_for_piece(
    rules: Seq<RuleText>,
    pieces: Seq<Seq<u8>>,
) -> (Seq<u8>, Option<Seq<char>>);

/// What `HtmlRewriter::end` writes when the rewriter has taken the pieces of a page, and what it
/// reports where it does not take their end.
pub uninterp spec fn written_at_end(
    rules: Seq<RuleText>,
    pieces: Seq<Seq<u8>>,
) -> (Seq<u8>, Option<Seq<char>>);

/// `HtmlRewriter::new` makes a rewriter that calls a handler for each element that a selector
/// picks. It wants a kilobyte for its first buffer. The selectors are some that `lol_html` reads.
#[verifier::external_body]
fn new_rewriter(rules: Vec<Rule>, max_memory: usize) -> (r: PageRewriter)
    requires
        max_memory >= 1024,
        forall|i: int|
            0 <= i < rules@.len() ==> (#[trigger] rules@[i]).selector@ == "head"@
                || rules@[i].selector@ == "body"@ || rules@[i].selector@ == stylesheet_selector(),
    ensures
        rules_of(r) == rule_texts(rules@),
        limit_of(r) == max_memory,
        pieces_of(r) == Seq::<Seq<u8>>::empty(),
{
    let mut settings = Settings::new();
    settings.memory_settings.max_allowed_memory_usage = max_memory;
    for rule in rules {
        let selector: Selector = rule.selector.parse().unwrap();
        settings.element_content_handlers.push((Owned(selector), ElementContentHandlers::default().element(
            move |element: &mut Element| Ok(rule.change.apply(&mut PageElement { element })),
        )));
    }
    let out = Rc::new(RefCell::new(Vec::new()));
    let sink = out.clone();
    let write: Box<dyn FnMut(&[u8])> = Box::new(move |c| sink.borrow_mut().extend_from_slice(c));
    PageRewriter { rewriter: HtmlRewriter::new(settings, write), out }
}

/// `HtmlRewriter::write` takes a piece of a page, and writes as much as it can. A rewriter that
/// fails is of no more use. It fails for what the page holds, with what the error's `Display`
/// says, or when the memory runs out, with nothing, and has then written the beginning of what it
/// was to write. Whether the memory runs out depends on the machine and is left open: what is
/// counted is the capacity of buffers, and an allocation that is refused counts as well.
#[verifier::external_body]
fn write_piece(rewriter: PageRewriter, piece: &[u8]) -> (r: (
    Vec<u8>,
    Result<PageRewriter, Option<String>>,
))
    ensures
        ({
            let pieces = pieces_of(rewriter).push(piece@);
            let written = written_for_piece(rules_of(rewriter), pieces);
            match r.1 {
                Ok(next) => written == (r.0@, None::<Seq<char>>) && rules_of(next) == rules_of(
                    rewriter,
                ) && limit_of(next) == limit_of(rewriter) && pieces_of(next) == pieces,
                Err(Some(message)) => written == (r.0@, Some(message@)),
                Err(None) => r.0@.is_prefix_of(written.0),
            }
        }),
{
    let mut rewriter = rewriter;
    let result = rewriter.rewriter.write(piece);
    let out = rewriter.out.take();
    match result {
        Ok(_) => (out, Ok(rewriter)),
        Err(MemoryLimitExceeded(_)) => (out, Err(None)),
        Err(e) => (out, Err(Some(e.to_string()))),
    }
}

/// `HtmlRewriter::end` takes the end of a page, and writes the rest. It fails like
/// `HtmlRewriter::write`.
#[verifier::external_body]
fn end_page(rewriter: PageRewriter) -> (r: (Vec<u8>, Result<(), Option<String>>))
    ensures
        ({
            let written = written_at_end(rules_of(rewriter), pieces_of(rewriter));
            match r.1 {
                Ok(_) => written == (r.0@, None::<Seq<char>>),
                Err(Some(message)) => written == (r.0@, Some(message@)),
                Err(None) => r.0@.is_prefix_of(written.0),
            }
        }),
{
    let result = rewriter.rewriter.end();
    let out = rewriter.out.take();
    match result {
        Ok(_) => (out, Ok(())),
        Err(MemoryLimitExceeded(_)) => (out, Err(None)),
        Err(e) => (out, Err(Some(e.to_string()))),
    }
}

/// Why a page could not be rewritten.
#[derive(Debug)]
pub enum RewriteError {
    /// It took too much memory.
    MemoryLimitExceeded,
    /// Something else was wrong, with what was reported.
    Other(String),
}

/// Why a page could not be rewritten. A rewriter that reports nothing ran out of memory.
pub open spec fn error_of(reported: Option<String>) -> RewriteError {
    match reported {
        Some(message) => RewriteError::Other(message),
        None => RewriteError::MemoryLimitExceeded,
    }
}

/// Why a page could not be rewritten.
pub fn rewriting_error(reported: Option<String>) -> (r: RewriteError)
    ensures
        r == error_of(reported),
{
    match reported {
        Some(message) => RewriteError::Other(message),
        None => RewriteError::MemoryLimitExceeded,
    }
}

impl PageRewriter {
    /// A rewriter for a page. It needs a kilobyte of memory at least.
    pub fn new(markup: PageMarkup, max_memory: usize) -> (r: PageRewriter)
        requires
            max_memory >= 1024,
        ensures
            rules_of(r) == page_rule_texts(markup),
            limit_of(r) == max_memory,
            pieces_of(r) == Seq::<Seq<u8>>::empty(),
    {
        let rules: Vec<Rule> = page_rules(markup);
        proof {
            let texts = rule_texts(rules@);
            assert(texts.len() == rules@.len());
            assert(texts == page_rule_texts(markup));
            assert forall|i: int| 0 <= i < rules@.len() implies (#[trigger] rules@[i]).selector@
                == "head"@ || rules@[i].selector@ == "body"@ || rules@[i].selector@
                == stylesheet_selector() by {
                assert(texts[i] == rules@[i]@);
                assert(i == 0 || i == 1 || i == 2);
            }
        }
        new_rewriter(rules, max_memory)
    }
}

/// How far the rewriting of a page has come. The type of the rewriter makes no difference to what
/// is done with what it gives.
#[derive(Debug)]
pub enum Rewriting<R> {
    /// The rewriter waits for the next piece, or for the end of the page.
    Open(R),
    /// There is nothing more to do.
    Closed(Result<(), RewriteError>),
}

/// What a rewriter is given.
#[derive(Debug)]
pub enum PageInput {
    /// The next piece of the page.
    Piece(Vec<u8>),
    /// There are no more pieces.
    End,
    /// No more pieces will come, and whether the page is complete is not known.
    Lost,
}

/// What becomes of a page when the rewriter was given a piece: what was written goes out behind
/// `out`, also where the rewriter fails. It waits for more, or the first failure closes it.
pub fn after_piece<R>(out: Vec<u8>, written: Vec<u8>, taken: Result<R, Option<String>>) -> (r: (
    Vec<u8>,
    Rewriting<R>,
))
    ensures
        r.0@ == out@ + written@,
        r.1 == (match taken {
            Ok(next) => Rewriting::Open(next),
            Err(reported) => Rewriting::Closed(Err(error_of(reported))),
        }),
{
    let mut out: Vec<u8> = out;
    let mut written: Vec<u8> = written;
    out.append(&mut written);
    match taken {
        Ok(next) => (out, Rewriting::Open(next)),
        Err(reported) => (out, Rewriting::Closed(Err(rewriting_error(reported)))),
    }
}

/// What becomes of a page when the rewriter was given its end: what was written goes out behind
/// `out`, also where the rewriter fails, and nothing more is to be done.
pub fn after_end<R>(out: Vec<u8>, written: Vec<u8>, taken: Result<(), Option<String>>) -> (r: (
    Vec<u8>,
    Rewriting<R>,
))
    ensures
        r.0@ == out@ + written@,
        r.1 is Closed,
        r.1->Closed_0 is Ok <==> taken is Ok,
        taken matches Err(reported) ==> r.1->Closed_0 == Err::<(), RewriteError>(
            error_of(reported),
        ),
{
    let mut out: Vec<u8> = out;
    let mut written: Vec<u8> = written;
    out.append(&mut written);
    match taken {
        Ok(_) => (out, Rewriting::Closed(Ok(()))),
        Err(reported) => (out, Rewriting::Closed(Err(rewriting_error(reported)))),
    }
}

/// Whether `out` is what goes out, and `failure` is why, when a rewriter that was to write
/// `written`, and to report something or nothing, fails.
pub open spec fn is_failure(
    failure: RewriteError,
    out: Seq<u8>,
    written: (Seq<u8>, Option<Seq<char>>),
) -> bool {
    match failure {
        RewriteError::Other(message) => written == (out, Some(message@)),
        RewriteError::MemoryLimitExceeded => out.is_prefix_of(written.0),
    }
}

/// Whether `next` is what a rewriter that is given a piece comes to, when it writes `out`.
pub open spec fn takes_piece(
    rewriter: PageRewriter,
    piece: Seq<u8>,
    out: Seq<u8>,
    next: Rewriting<PageRewriter>,
) -> bool {
    let pieces = pieces_of(rewriter).push(piece);
    let written = written_for_piece(rules_of(rewriter), pieces);
    match next {
        Rewriting::Open(later) => written == (out, None::<Seq<char>>) && rules_of(later)
            == rules_of(rewriter) && limit_of(later) == limit_of(rewriter) && pieces_of(later)
            == pieces,
        Rewriting::Closed(result) => result matches Err(e) && is_failure(e, out, written),
    }
}

/// Whether `next` is what a rewriter that is given the end comes to, when it writes `out`.
pub open spec fn takes_end(
    rewriter: PageRewriter,
    out: Seq<u8>,
    next: Rewriting<PageRewriter>,
) -> bool {
    let written = written_at_end(rules_of(rewriter), pieces_of(rewriter));
    match next {
        Rewriting::Open(_) => false,
        Rewriting::Closed(result) => match result {
            Ok(_) => written == (out, None::<Seq<char>>),
            Err(e) => is_failure(e, out, written),
        },
    }
}

impl Rewriting<PageRewriter> {
    /// Whether `next` is what rewriting comes to, when `out` goes out behind `before`.
    pub open spec fn leads_to(
        self,
        before: Seq<u8>,
        input: PageInput,
        out: Seq<u8>,
        next: Rewriting<PageRewriter>,
    ) -> bool {
        let added = out.skip(before.len() as int);
        &&& before.is_prefix_of(out)
        &&& self matches Rewriting::Open(rewriter) && (match input {
            PageInput::Piece(piece) => takes_piece(rewriter, piece@, added, next),
            PageInput::End => takes_end(rewriter, added, next),
            PageInput::Lost => added.len() == 0 && (next matches Rewriting::Closed(
                Err(RewriteError::Other(message)),
            ) && message@ == "receiving on a closed channel"@),
        })
    }

    /// Gives the rewriter what comes next. What it writes goes out behind `out`.
    pub fn proceed(self, out: Vec<u8>, input: PageInput) -> (r: (
        Vec<u8>,
        Rewriting<PageRewriter>,
    ))
        requires
            self is Open,
        ensures
            self.leads_to(out@, input, r.0@, r.1),
    {
        let ghost before = out@;
        let rewriter: PageRewriter = match self {
            Rewriting::Open(rewriter) => rewriter,
            Rewriting::Closed(_) => vstd::pervasive::unreached(),
        };
        match input {
            PageInput::Piece(piece) => {
                let (written, taken): (Vec<u8>, Result<PageRewriter, Option<String>>) = write_piece(
                    rewriter,
                    piece.as_slice(),
                );
                assert((before + written@).skip(before.len() as int) =~= written@);
                after_piece(out, written, taken)
            },
            PageInput::End => {
                let (written, taken): (Vec<u8>, Result<(), Option<String>>) = end_page(rewriter);
                assert((before + written@).skip(before.len() as int) =~= written@);
                after_end(out, written, taken)
            },
            PageInput::Lost => {
                let message: String = "receiving on a closed channel".to_owned();
                (out, Rewriting::Closed(Err(RewriteError::Other(message))))
            },
        }
    }
}

/// Rewriting is closed by the end of the page, by the loss of its source, or by a piece that the
/// rewriter fails on, and by nothing else. Only the end closes it with success.
pub proof fn law_rewriting_closes_once(
    state: Rewriting<PageRewriter>,
    before: Seq<u8>,
    input: PageInput,
    out: Seq<u8>,
    next: Rewriting<PageRewriter>,
)
    requires
        state.leads_to(before, input, out, next),
    ensures
        state is Open,
        !(input is Piece) ==> next is Closed,
        next is Closed && next->Closed_0 is Ok ==> input is End,
        next is Closed && input is Piece ==> next->Closed_0 is Err,
{
}

/// What the pieces of a page hold.
pub open spec fn piece_bytes(pieces: Seq<Vec<u8>>) -> Seq<Seq<u8>> {
    pieces.map_values(|p: Vec<u8>| p@)
}

/// What is written for some pieces, before their end.
pub open spec fn written_for_pieces(rules: Seq<RuleText>, pieces: Seq<Seq<u8>>) -> Seq<u8>
    decreases pieces.len(),
{
    if pieces.len() == 0 {
        Seq::empty()
    } else {
        written_for_pieces(rules, pieces.drop_last()) + written_for_piece(rules, pieces).0
    }
}

/// Whether the rewriter takes every one of some pieces.
pub open spec fn takes_pieces(rules: Seq<RuleText>, pieces: Seq<Seq<u8>>) -> bool
    decreases pieces.len(),
{
    pieces.len() == 0 || (takes_pieces(rules, pieces.drop_last()) && written_for_piece(
        rules,
        pieces,
    ).1 is None)
}

/// Whether `out` is what goes out, and `failure` is why, when the rewriter has taken `n` pieces
/// and then fails.
pub open spec fn fails_after(
    rules: Seq<RuleText>,
    pieces: Seq<Seq<u8>>,
    n: int,
    out: Seq<u8>,
    failure: RewriteError,
) -> bool {
    let before = written_for_pieces(rules, pieces.take(n));
    let written = if n < pieces.len() {
        written_for_piece(rules, pieces.take(n + 1))
    } else {
        written_at_end(rules, pieces)
    };
    &&& 0 <= n <= pieces.len()
    &&& takes_pieces(rules, pieces.take(n))
    &&& before.is_prefix_of(out)
    &&& is_failure(failure, out.skip(before.len() as int), written)
}

/// Whether `out` is what goes out for a page, and `result` is what comes of it.
pub open spec fn is_rewriting(
    rules: Seq<RuleText>,
    pieces: Seq<Seq<u8>>,
    out: Seq<u8>,
    result: Result<(), RewriteError>,
) -> bool {
    match result {
        Ok(_) => takes_pieces(rules, pieces) && written_at_end(rules, pieces).1 is None && out
            == written_for_pieces(rules, pieces) + written_at_end(rules, pieces).0,
        Err(e) => exists|n: int| fails_after(rules, pieces, n, out, e),
    }
}

/// Rewrites a page that comes in pieces. What is written goes out, also where rewriting fails.
pub fn rewrite_rustdoc_html(pieces: Vec<Vec<u8>>, markup: PageMarkup, max_memory: usize) -> (r: (
    Vec<u8>,
    Result<(), RewriteError>,
))
    requires
        max_memory >= 1024,
    ensures
        is_rewriting(page_rule_texts(markup), piece_bytes(pieces@), r.0@, r.1),
{
    let ghost rules = page_rule_texts(markup);
    let ghost all = piece_bytes(pieces@);
    let mut state: Rewriting<PageRewriter> = Rewriting::Open(PageRewriter::new(markup, max_memory));
    let mut out: Vec<u8> = Vec::new();
    let mut rest: Vec<Vec<u8>> = pieces;
    let ghost mut n: int = 0;
    assert(all.take(0) =~= Seq::<Seq<u8>>::empty());
    loop
        invariant
            0 <= n <= all.len(),
            rules == page_rule_texts(markup),
            all == piece_bytes(pieces@),
            rest@ == pieces@.skip(n),
            takes_pieces(rules, all.take(n)),
            state matches Rewriting::Open(rewriter) && rules_of(rewriter) == rules && pieces_of(
                rewriter,
            ) == all.take(n),
            out@ == written_for_pieces(rules, all.take(n)),
        decreases rest@.len(),
    {
        let ghost before = out@;
        let input: PageInput = if rest.len() > 0 {
            PageInput::Piece(rest.remove(0))
        } else {
            PageInput::End
        };
        proof {
            if n < all.len() {
                assert(all.take(n).push(all[n]) =~= all.take(n + 1));
                assert(all.take(n + 1).drop_last() =~= all.take(n));
                assert(rest@ =~= pieces@.skip(n + 1));
            } else {
                assert(all.take(n) =~= all);
            }
        }
        let (sent, next): (Vec<u8>, Rewriting<PageRewriter>) = state.proceed(out, input);
        assert(sent@ =~= before + sent@.skip(before.len() as int));
        match next {
            Rewriting::Open(rewriter) => {
                out = sent;
                state = Rewriting::Open(rewriter);
                proof {
                    n = n + 1;
                }
            },
            Rewriting::Closed(result) => {
                assert(result is Err ==> fails_after(rules, all, n, sent@, result->Err_0));
                return (sent, result);
            },
        }
    }
}

/// What the stream of a rewritten page does next. The page is read piece by piece, the pieces go
/// to a rewriter that works by itself, and what it wrote is taken from it as it comes.
#[derive(Debug)]
pub enum StreamAction {
    /// Read the next piece of the page.
    Read,
    /// Send a piece to the rewriter.
    Send(Vec<u8>),
    /// Take what the rewriter wrote, if there is something.
    TryReceive,
    /// Tell the rewriter that there are no more pieces.
    SendEnd,
    /// Wait for what the rewriter still writes.
    Receive,
    /// Ask the rewriter how it went.
    Join,
    /// Nothing: the stream has ended.
    Stop,
}

/// What came of an action.
#[derive(Debug)]
pub enum StreamEvent<E> {
    /// A piece of the page was read.
    Chunk(Vec<u8>),
    /// There are no more pieces.
    EndOfPage,
    /// The rewriter has taken what it was sent.
    Sent,
    /// The rewriter wrote something.
    Output(Vec<u8>),
    /// The rewriter has written nothing more, for now or for good.
    NoOutput,
    /// The rewriter has finished.
    Finished,
    /// The action failed.
    Failed(E),
}

/// One step of the stream: what goes out, and then what is done next.
#[derive(Debug)]
pub struct StreamStep<E> {
    pub item: Option<Result<Vec<u8>, E>>,
    pub action: StreamAction,
}

impl StreamAction {
    /// Whether an event can come of the action.
    pub open spec fn accepts<E>(self, event: StreamEvent<E>) -> bool {
        match self {
            StreamAction::Read => event is Chunk || event is EndOfPage || event is Failed,
            StreamAction::Send(_) => event is Sent || event is Failed,
            StreamAction::TryReceive => event is Output || event is NoOutput,
            StreamAction::SendEnd => event is Sent || event is Failed,
            StreamAction::Receive => event is Output || event is NoOutput,
            StreamAction::Join => event is Finished || event is Failed,
            StreamAction::Stop => false,
        }
    }

    /// What is done after an action. When the page cannot be read, the stream ends there; when
    /// the rewriter takes nothing more, reading stops, and what it wrote still goes out.
    pub open spec fn next<E>(self, event: StreamEvent<E>) -> StreamAction {
        match (self, event) {
            (StreamAction::Read, StreamEvent::Chunk(chunk)) => StreamAction::Send(chunk),
            (StreamAction::Read, StreamEvent::EndOfPage) => StreamAction::SendEnd,
            (StreamAction::Read, _) => StreamAction::Stop,
            (StreamAction::Send(_), StreamEvent::Sent) => StreamAction::TryReceive,
            (StreamAction::Send(_), _) => StreamAction::SendEnd,
            (StreamAction::TryReceive, StreamEvent::Output(_)) => StreamAction::TryReceive,
            (StreamAction::TryReceive, _) => StreamAction::Read,
            (StreamAction::SendEnd, _) => StreamAction::Receive,
            (StreamAction::Receive, StreamEvent::Output(_)) => StreamAction::Receive,
            (StreamAction::Receive, _) => StreamAction::Join,
            _ => StreamAction::Stop,
        }
    }

    /// What goes out: everything that the rewriter wrote, and every failure.
    pub open spec fn sent_out<E>(event: StreamEvent<E>) -> Option<Result<Vec<u8>, E>> {
        match event {
            StreamEvent::Output(bytes) => Some(Ok(bytes)),
            StreamEvent::Failed(err) => Some(Err(err)),
            _ => None,
        }
    }

    /// Goes on with what came of an action.
    pub fn proceed<E>(self, event: StreamEvent<E>) -> (r: StreamStep<E>)
        requires
            self.accepts(event),
        ensures
            r.action == self.next(event),
            r.item == StreamAction::sent_out(event),
    {
        match (self, event) {
            (StreamAction::Read, StreamEvent::Chunk(chunk)) => quietly(StreamAction::Send(chunk)),
            (StreamAction::Read, StreamEvent::EndOfPage) => quietly(StreamAction::SendEnd),
            (StreamAction::Read, StreamEvent::Failed(err)) => failing(err, StreamAction::Stop),
            (StreamAction::Send(_), StreamEvent::Sent) => quietly(StreamAction::TryReceive),
            (StreamAction::Send(_), StreamEvent::Failed(err)) => failing(
                err,
                StreamAction::SendEnd,
            ),
            (StreamAction::TryReceive, StreamEvent::Output(bytes)) => StreamStep {
                item: Some(Ok(bytes)),
                action: StreamAction::TryReceive,
            },
            (StreamAction::TryReceive, _) => quietly(StreamAction::Read),
            (StreamAction::SendEnd, StreamEvent::Sent) => quietly(StreamAction::Receive),
            (StreamAction::SendEnd, StreamEvent::Failed(err)) => failing(
                err,
                StreamAction::Receive,
            ),
            (StreamAction::Receive, StreamEvent::Output(bytes)) => StreamStep {
                item: Some(Ok(bytes)),
                action: StreamAction::Receive,
            },
            (StreamAction::Receive, _) => quietly(StreamAction::Join),
            (StreamAction::Join, StreamEvent::Failed(err)) => failing(err, StreamAction::Stop),
            _ => quietly(StreamAction::Stop),
        }
    }
}

fn quietly<E>(action: StreamAction) -> (r: StreamStep<E>)
    ensures
        r.action == action,
        r.item is None,
{
    StreamStep { item: None, action }
}

fn failing<E>(err: E, action: StreamAction) -> (r: StreamStep<E>)
    ensures
        r.action == action,
        r.item == Some(Err::<Vec<u8>, E>(err)),
{
    StreamStep { item: Some(Err(err)), action }
}

/// Whether an error is counted as one of memory.
pub fn counts_as_out_of_memory(err: &RewriteError) -> (r: bool)
    ensures
        r == (err is MemoryLimitExceeded),
{
    matches!(err, RewriteError::MemoryLimitExceeded)
}

/// Once the rewriter was told that there are no more pieces, nothing is read or sent any more,
/// and the stream ends when the rewriter says how it went.
pub proof fn law_stream_winds_down<E>(action: StreamAction, event: StreamEvent<E>)
    requires
        action.accepts(event),
        action is SendEnd || action is Receive || action is Join,
    ensures
        action.next(event) is Receive || action.next(event) is Join || action.next(event) is Stop,
        action.next(event) is Stop <==> action is Join,
        action is Receive && !(event is Output) ==> action.next(event) is Join,
{
}

/// Every piece that is read is sent, as it is, before the next one is read.
pub proof fn law_pieces_are_sent_in_order<E>(action: StreamAction, event: StreamEvent<E>)
    requires
        action.accepts(event),
    ensures
        event matches StreamEvent::Chunk(chunk) ==> action.next(event) == StreamAction::Send(chunk),
        action.next(event) is Read ==> action is TryReceive,
        action.next(event) is TryReceive ==> action is Send || action is TryReceive,
{
}

/// What was the body of a page keeps its classes, and has that of the site as its last one.
pub proof fn law_body_keeps_its_classes(class: Option<Seq<char>>)
    ensures
        class matches Some(c) ==> c.is_prefix_of(body_class(class)) && " container-rustdoc"@.is_suffix_of(
            body_class(class),
        ) && body_class(class).len() == c.len() + " container-rustdoc"@.len(),
        class is None ==> body_class(class) == "container-rustdoc"@,
{
    if let Some(c) = class {
        let all = body_class(class);
        let end = " container-rustdoc"@;
        assert(all.take(c.len() as int) =~= c);
        assert(all.skip(all.len() - end.len()) =~= end);
    }
}

/// What is put before an element, in the order in which it stands there.
pub open spec fn markup_before(edits: Seq<Edit>) -> Seq<char>
    decreases edits.len(),
{
    if edits.len() == 0 {
        Seq::empty()
    } else {
        markup_before(edits.drop_last()) + (match edits.last() {
            Edit::Before(html) => html,
            _ => Seq::empty(),
        })
    }
}

/// What is put behind an element, in the order in which it stands there.
pub open spec fn markup_after(edits: Seq<Edit>) -> Seq<char>
    decreases edits.len(),
{
    if edits.len() == 0 {
        Seq::empty()
    } else {
        (match edits.last() {
            Edit::After(html) => html,
            _ => Seq::empty(),
        }) + markup_after(edits.drop_last())
    }
}

/// What is put into an element, before its content.
pub open spec fn markup_within(edits: Seq<Edit>) -> Seq<char>
    decreases edits.len(),
{
    if edits.len() == 0 {
        Seq::empty()
    } else {
        (match edits.last() {
            Edit::Prepend(html) => html,
            _ => Seq::empty(),
        }) + markup_within(edits.drop_last())
    }
}

/// A new body begins before what was the body, with the topbar in it, and ends behind it. What the
/// site puts into every page comes before the content, which is neither lost nor moved.
pub proof fn law_new_body_wraps_the_old_one(
    class: Option<Seq<char>>,
    body_html: Seq<char>,
    topbar_html: Seq<char>,
)
    ensures
        ({
            let edits = body_edits(class, body_html, topbar_html);
            &&& markup_before(edits) == "<body class=\"rustdoc-page\">"@ + topbar_html
            &&& markup_after(edits) == "</body>"@
            &&& markup_within(edits) == body_html
            &&& edits.contains(Edit::SetTagName("div"@))
            &&& edits.contains(Edit::SetAttribute("class"@, body_class(class)))
            &&& edits.contains(Edit::SetAttribute("id"@, "rustdoc_body_wrapper"@))
            &&& forall|i: int|
                0 <= i < edits.len() && #[trigger] edits[i] is SetTagName ==> edits[i]
                    == Edit::SetTagName("div"@)
        }),
{
    let e = body_edits(class, body_html, topbar_html);
    assert(e[3] == Edit::SetTagName("div"@));
    assert(e[0] == Edit::SetAttribute("class"@, body_class(class)));
    assert(e[1] == Edit::SetAttribute("id"@, "rustdoc_body_wrapper"@));
    reveal_with_fuel(markup_before, 9);
    reveal_with_fuel(markup_after, 9);
    reveal_with_fuel(markup_within, 9);
    assert(e.drop_last() =~= e.take(7));
    assert(e.take(7).drop_last() =~= e.take(6));
    assert(e.take(6).drop_last() =~= e.take(5));
    assert(e.take(5).drop_last() =~= e.take(4));
    assert(e.take(4).drop_last() =~= e.take(3));
    assert(e.take(3).drop_last() =~= e.take(2));
    assert(e.take(2).drop_last() =~= e.take(1));
    assert(e.take(1).drop_last() =~= e.take(0));
    assert(markup_before(e) =~= "<body class=\"rustdoc-page\">"@ + topbar_html);
    assert(markup_after(e) =~= "</body>"@);
    assert(markup_within(e) =~= body_html);
}

/// Each part of the site's markup goes into a page by one rule: the style sheets at the end of the
/// head, the topbar before the content, and the sheet that rustdoc's own overrides before those.
pub proof fn law_every_part_of_the_markup_is_put_in(markup: PageMarkup, class: Option<Seq<char>>)
    ensures
        ({
            let rules = page_rule_texts(markup);
            &&& rules.len() == 3
            &&& forall|i: int, j: int|
                0 <= i < j < rules.len() ==> (#[trigger] rules[i]).selector != (
                #[trigger] rules[j]).selector
            &&& forall|i: int|
                0 <= i < rules.len() && (#[trigger] rules[i]).selector == "head"@
                    ==> rules[i].change.edits(class) == seq![Edit::Append(markup.head_html@)]
            &&& forall|i: int|
                0 <= i < rules.len() && (#[trigger] rules[i]).selector == "body"@
                    ==> markup_within(rules[i].change.edits(class)) == markup.body_html@
                    && markup.topbar_html@.is_suffix_of(
                    markup_before(rules[i].change.edits(class)),
                )
            &&& forall|i: int|
                0 <= i < rules.len() && (#[trigger] rules[i]).selector == stylesheet_selector()
                    ==> rules[i].change.edits(class) == seq![Edit::Before(markup.vendored_html@)]
        }),
{
    reveal_strlit("head");
    reveal_strlit("body");
    reveal_strlit("link[rel='stylesheet'][href*='rustdoc-']");
    let rules = page_rule_texts(markup);
    assert("head"@[0] == 'h' && "body"@[0] == 'b' && stylesheet_selector()[0] == 'l');
    law_new_body_wraps_the_old_one(class, markup.body_html@, markup.topbar_html@);
    let before = "<body class=\"rustdoc-page\">"@ + markup.topbar_html@;
    assert(before.skip(before.len() - markup.topbar_html@.len()) =~= markup.topbar_html@);
    assert(rules[0].selector == "head"@ && rules[1].selector == "body"@ && rules[2].selector
        == stylesheet_selector());
}

/// What the rewriter wrote, and nothing else, goes out as content, and every failure goes out as a
/// failure.
pub proof fn law_output_goes_out_as_it_is<E>(event: StreamEvent<E>)
    ensures
        event matches StreamEvent::Output(bytes) ==> StreamAction::sent_out(event) == Some(
            Ok::<Vec<u8>, E>(bytes),
        ),
        event matches StreamEvent::Failed(err) ==> StreamAction::sent_out(event) == Some(
            Err::<Vec<u8>, E>(err),
        ),
        StreamAction::sent_out(event) is Some <==> event is Output || event is Failed,
{
}

/// A stream never waits for output while pieces are still to be read, and tells the rewriter of
/// the end exactly where the page has ended or the rewriter takes nothing more.
pub proof fn law_end_is_told_once<E>(action: StreamAction, event: StreamEvent<E>)
    requires
        action.accepts(event),
    ensures
        action.next(event) is SendEnd <==> event is EndOfPage || (action is Send && event is Failed),
        action.next(event) is Stop <==> action is Join || (action is Read && event is Failed),
        action is TryReceive && event is NoOutput ==> action.next(event) is Read,
        action is TryReceive && event is Output ==> action.next(event) is TryReceive,
        action is Receive && event is Output ==> action.next(event) is Receive,
{
}

} // verus!
