//! Message composition: assembling subject, sender, recipients, and the
//! body tree (plain text, HTML, alternative, inline related content) into a
//! transport-ready message, one per data row.
use vstd::prelude::*;

use crate::config::from_template_spec;
use crate::config::DispatchConfig;
use crate::config::RelatedContentConfig;
use crate::error::DispatchError;
use crate::mailbox::mailbox_from_address;
use crate::mailbox::mailbox_spec;
use crate::mailbox::mailboxes_from_recipients;
use crate::mailbox::resolve_spec;
use crate::mailbox::Mailbox;
use crate::substitution::subst_spec;
use crate::substitution::substitute;
use crate::substitution::Substitutions;

verus! {

/// A resolved inline asset: its content id, its MIME type, and the raw
/// bytes of its file.
#[derive(Debug)]
pub struct RelatedContent {
    pub content_id: String,
    pub mime_type: String,
    pub body: Vec<u8>,
}

impl RelatedContent {
    /// Pairs a content id and MIME type with the bytes read for them.
    pub fn new(content_id: String, mime_type: String, body: Vec<u8>) -> (r: RelatedContent)
        ensures
            r.content_id == content_id,
            r.mime_type == mime_type,
            r.body == body,
    {
        RelatedContent { content_id, mime_type, body }
    }
}

/// The HTML branch of a body: the HTML text alone, or a related part
/// pairing it with its inline assets.
#[derive(Debug)]
pub enum HtmlBody {
    Plain { html: String },
    Related { html: String, assets: Vec<RelatedContent> },
}

/// The body tree of a composed message: a single part, or an alternative
/// of the plain-text part and the HTML branch.
#[derive(Debug)]
pub enum Body {
    Text { text: String },
    Html { html: HtmlBody },
    Alternative { text: String, html: HtmlBody },
}

/// A transport-ready message composed for one data row.
#[derive(Debug)]
pub struct Message {
    pub from: Mailbox,
    pub reply_to: Option<Mailbox>,
    pub to: Vec<Mailbox>,
    pub cc: Vec<Mailbox>,
    pub bcc: Vec<Mailbox>,
    pub subject: String,
    pub body: Body,
}

/// How the HTML branch is assembled: a related part exactly when there are
/// inline assets, and then holding exactly those assets, in order.
pub open spec fn html_branch_matches(
    branch: &HtmlBody,
    html_template: Seq<char>,
    assets: Seq<RelatedContent>,
    row: Map<Seq<char>, Seq<char>>,
) -> bool {
    if assets.len() == 0 {
        branch matches HtmlBody::Plain { html } && html@ == subst_spec(html_template, row)
    } else {
        branch matches HtmlBody::Related { html, assets: held } && html@ == subst_spec(
            html_template,
            row,
        ) && held@ == assets
    }
}

/// How the body tree is assembled from the body templates: both templates
/// give an alternative of (text, html branch); one gives a single part;
/// related content is only ever attached to the HTML branch.
pub open spec fn body_matches(
    body: &Body,
    body_html_template: &Option<String>,
    body_text_template: &Option<String>,
    assets: Seq<RelatedContent>,
    row: Map<Seq<char>, Seq<char>>,
) -> bool {
    match (body_html_template, body_text_template) {
        (Option::Some(h), Option::Some(t)) => body matches Body::Alternative {
            text,
            html,
        } && text@ == subst_spec(t@, row) && html_branch_matches(html, h@, assets, row),
        (Option::Some(h), Option::None) => body matches Body::Html { html }
            && html_branch_matches(html, h@, assets, row),
        (Option::None, Option::Some(t)) => body matches Body::Text { text } && text@ == subst_spec(
            t@,
            row,
        ),
        (Option::None, Option::None) => false,
    }
}

/// When composition succeeds: every address resolves and at least one body
/// template is present.
pub open spec fn compose_ok(
    config: &DispatchConfig,
    body_html_template: &Option<String>,
    body_text_template: &Option<String>,
    row: Map<Seq<char>, Seq<char>>,
) -> bool {
    &&& mailbox_spec(from_template_spec(config), row) is Some
    &&& (config.reply_to matches Some(rt) ==> mailbox_spec(rt@, row) is Some)
    &&& resolve_spec(&config.to, row) is Ok
    &&& resolve_spec(&config.cc, row) is Ok
    &&& resolve_spec(&config.bcc, row) is Ok
    &&& (body_html_template is Some || body_text_template is Some)
}

pub open spec fn is_address_err_for(e: &DispatchError, t: Seq<char>) -> bool {
    e matches DispatchError::Address { template, .. } && template@ == t
}

/// Which error composition reports: the first failure in resolution order
/// (sender, reply-to, to, cc, bcc), else the missing body.
pub open spec fn compose_err_matches(
    config: &DispatchConfig,
    body_html_template: &Option<String>,
    body_text_template: &Option<String>,
    row: Map<Seq<char>, Seq<char>>,
    e: &DispatchError,
) -> bool {
    if mailbox_spec(from_template_spec(config), row) is None {
        is_address_err_for(e, from_template_spec(config))
    } else if config.reply_to matches Some(rt) && mailbox_spec(rt@, row) is None {
        e matches DispatchError::Address { template, .. } && (config.reply_to matches Some(rt2)
            && template@ == rt2@)
    } else if resolve_spec(&config.to, row) is Err {
        is_address_err_for(e, resolve_spec(&config.to, row)->Err_0)
    } else if resolve_spec(&config.cc, row) is Err {
        is_address_err_for(e, resolve_spec(&config.cc, row)->Err_0)
    } else if resolve_spec(&config.bcc, row) is Err {
        is_address_err_for(e, resolve_spec(&config.bcc, row)->Err_0)
    } else {
        body_html_template is None && body_text_template is None && e is Template
    }
}

/// How a successfully composed message relates to the configuration, the
/// body templates, the inline assets, and the row it was composed for.
pub open spec fn message_matches(
    m: &Message,
    config: &DispatchConfig,
    body_html_template: &Option<String>,
    body_text_template: &Option<String>,
    assets: Seq<RelatedContent>,
    row: Map<Seq<char>, Seq<char>>,
) -> bool {
    &&& m.subject@ == subst_spec(config.subject@, row)
    &&& Some(m.from@) == mailbox_spec(from_template_spec(config), row)
    &&& (m.reply_to is Some <==> config.reply_to is Some)
    &&& (m.reply_to matches Some(rt) ==> (config.reply_to matches Some(t) && Some(rt@)
        == mailbox_spec(t@, row)))
    &&& m.to.deep_view() == resolve_spec(&config.to, row)->Ok_0
    &&& m.cc.deep_view() == resolve_spec(&config.cc, row)->Ok_0
    &&& m.bcc.deep_view() == resolve_spec(&config.bcc, row)->Ok_0
    &&& body_matches(&m.body, body_html_template, body_text_template, assets, row)
}

fn make_html_branch(html: String, assets: Vec<RelatedContent>) -> (r: HtmlBody)
    ensures
        assets@.len() == 0 ==> (r matches HtmlBody::Plain { html: h } && h == html),
        assets@.len() != 0 ==> (r matches HtmlBody::Related { html: h, assets: held } && h == html
            && held == assets),
{
    if assets.len() == 0 {
        HtmlBody::Plain { html }
    } else {
        HtmlBody::Related { html, assets }
    }
}

/// Composes the message for one row: substitutes the subject and body
/// templates, resolves sender, reply-to, and every recipient class, and
/// assembles the body tree with the inline assets loaded for this row.
/// Fails when an address does not resolve or both body templates are
/// absent.
pub fn create_message(
    config: &DispatchConfig,
    body_html_template: &Option<String>,
    body_text_template: &Option<String>,
    related: Vec<RelatedContent>,
    data: &Substitutions,
) -> (r: Result<Message, DispatchError>)
    ensures
        r is Ok <==> compose_ok(config, body_html_template, body_text_template, data@),
        r is Ok ==> message_matches(
            &r->Ok_0,
            config,
            body_html_template,
            body_text_template,
            related@,
            data@,
        ),
        r is Err ==> compose_err_matches(
            config,
            body_html_template,
            body_text_template,
            data@,
            &r->Err_0,
        ),
{
    let subject = substitute(config.subject.as_str(), data);

    let from = mailbox_from_address(config.from_template().as_str(), data)?;

    let reply_to = match &config.reply_to {
        Some(rt) => Some(mailbox_from_address(rt.as_str(), data)?),
        None => None,
    };

    let to = mailboxes_from_recipients(&config.to, data)?;
    let cc = mailboxes_from_recipients(&config.cc, data)?;
    let bcc = mailboxes_from_recipients(&config.bcc, data)?;

    let body_html = match body_html_template {
        Some(t) => Some(substitute(t.as_str(), data)),
        None => None,
    };
    let body_text = match body_text_template {
        Some(t) => Some(substitute(t.as_str(), data)),
        None => None,
    };

    let body = match (body_html, body_text) {
        (Some(html), Some(text)) => Body::Alternative {
            text,
            html: make_html_branch(html, related),
        },
        (Some(html), None) => Body::Html { html: make_html_branch(html, related) },
        (None, Some(text)) => Body::Text { text },
        (None, None) => {
            return Err(DispatchError::Template);
        },
    };

    Ok(Message { from, reply_to, to, cc, bcc, subject, body })
}

/// The substituted file-path template of every inline asset, in order: one
/// path per configured entry, whose file is read for the current row.
pub fn resolved_paths(related: &Vec<RelatedContentConfig>, data: &Substitutions) -> (r: Vec<String>)
    ensures
        r.deep_view() == Seq::new(related@.len(), |m: int| subst_spec(related@[m].path@, data@)),
{
    let ghost goal = Seq::new(related@.len(), |m: int| subst_spec(related@[m].path@, data@));
    let n = related.len();
    let mut paths: Vec<String> = Vec::new();
    let mut i: usize = 0;
    while i < n
        invariant
            n == related@.len(),
            goal == Seq::new(related@.len(), |m: int| subst_spec(related@[m].path@, data@)),
            i <= n,
            paths.deep_view() == goal.take(i as int),
        decreases n - i,
    {
        let ghost before = paths.deep_view();
        paths.push(substitute(related[i].path.as_str(), data));
        proof {
            assert(paths.deep_view() =~= before.push(subst_spec(related@[i as int].path@, data@)));
            assert(paths.deep_view() =~= goal.take(i + 1));
        }
        i = i + 1;
    }
    proof {
        assert(goal.take(n as int) =~= goal);
    }
    paths
}

/// The first inline asset of `assets` carrying `content_id`, if any: how
/// the HTML body's embedded objects are looked up.
pub fn find_asset<'a>(assets: &'a Vec<RelatedContent>, content_id: &str) -> (r: Option<
    &'a RelatedContent,
>)
    ensures
        match r {
            Some(a) => exists|m: int|
                {
                    &&& 0 <= m < assets@.len()
                    &&& assets@[m].content_id@ == content_id@
                    &&& *a == assets@[m]
                    &&& forall|k: int| 0 <= k < m ==> (#[trigger] assets@[k]).content_id@ != content_id@
                },
            None => forall|m: int|
                0 <= m < assets@.len() ==> (#[trigger] assets@[m]).content_id@ != content_id@,
        },
{
    let id = String::from_str(content_id);
    let n = assets.len();
    let mut i: usize = 0;
    while i < n
        invariant
            n == assets@.len(),
            i <= n,
            id@ == content_id@,
            forall|k: int| 0 <= k < i ==> (#[trigger] assets@[k]).content_id@ != content_id@,
        decreases n - i,
    {
        if assets[i].content_id == id {
            return Some(&assets[i]);
        }
        i = i + 1;
    }
    None
}

/// The rendered mailboxes of `list`, joined in order with a comma and a
/// space between neighbours.
pub open spec fn join_spec(list: Seq<Seq<char>>) -> Seq<char>
    decreases list.len(),
{
    if list.len() == 0 {
        Seq::empty()
    } else if list.len() == 1 {
        list[0]
    } else {
        list[0] + ", "@ + join_spec(list.skip(1))
    }
}

proof fn lemma_join_snoc(list: Seq<Seq<char>>, x: Seq<char>)
    ensures
        list.len() == 0 ==> join_spec(list.push(x)) == x,
        list.len() > 0 ==> join_spec(list.push(x)) == join_spec(list) + ", "@ + x,
    decreases list.len(),
{
    let longer = list.push(x);
    if list.len() == 0 {
        assert(longer[0] == x);
    } else {
        assert(longer.skip(1) =~= list.skip(1).push(x));
        lemma_join_snoc(list.skip(1), x);
        if list.len() == 1 {
            assert(join_spec(longer) == longer[0] + ", "@ + join_spec(longer.skip(1)));
            assert(longer[0] == list[0]);
            assert(join_spec(longer.skip(1)) == x);
        } else {
            assert(join_spec(longer) == list[0] + ", "@ + (join_spec(list.skip(1)) + ", "@ + x));
            assert(list[0] + ", "@ + (join_spec(list.skip(1)) + ", "@ + x) =~= (list[0] + ", "@
                + join_spec(list.skip(1))) + ", "@ + x);
        }
    }
}

/// Appends every mailbox of `list` to `line`, with a separator before each
/// one that does not open the whole joined text.
fn join_into(
    line: &mut String,
    any_before: bool,
    list: &Vec<Mailbox>,
    Ghost(acc): Ghost<Seq<Seq<char>>>,
) -> (any_after: bool)
    requires
        old(line)@ == join_spec(acc),
        any_before <==> acc.len() > 0,
    ensures
        final(line)@ == join_spec(acc + list.deep_view()),
        any_after <==> acc.len() + list.deep_view().len() > 0,
{
    let ghost items = list.deep_view();
    let n = list.len();
    let mut any = any_before;
    let mut i: usize = 0;
    proof {
        assert(acc + items.take(0) =~= acc);
    }
    while i < n
        invariant
            n == list.len(),
            items == list.deep_view(),
            items.len() == n,
            i <= n,
            line@ == join_spec(acc + items.take(i as int)),
            any <==> acc.len() + i > 0,
        decreases n - i,
    {
        if any {
            line.append(", ");
        }
        line.append(list[i].rendered().as_str());
        proof {
            let sofar = acc + items.take(i as int);
            lemma_join_snoc(sofar, items[i as int]);
            assert(sofar.push(items[i as int]) =~= acc + items.take(i + 1));
        }
        any = true;
        i = i + 1;
    }
    proof {
        assert(acc + items.take(n as int) =~= acc + items);
    }
    any
}

impl Message {
    /// Every recipient of the message (to, then cc, then bcc), rendered and
    /// joined with a comma and a space: the list a send failure names.
    pub fn recipient_summary(&self) -> (r: String)
        ensures
            r@ == join_spec(self.to.deep_view() + self.cc.deep_view() + self.bcc.deep_view()),
    {
        let mut line = String::new();
        proof {
            assert(Seq::<Seq<char>>::empty() + self.to.deep_view() =~= self.to.deep_view());
            assert(self.to.deep_view() + self.cc.deep_view() + self.bcc.deep_view() =~= (
            self.to.deep_view() + self.cc.deep_view()) + self.bcc.deep_view());
        }
        let any = join_into(&mut line, false, &self.to, Ghost(Seq::empty()));
        let any = join_into(&mut line, any, &self.cc, Ghost(self.to.deep_view()));
        let _ = join_into(
            &mut line,
            any,
            &self.bcc,
            Ghost(self.to.deep_view() + self.cc.deep_view()),
        );
        line
    }
}

} // verus!
