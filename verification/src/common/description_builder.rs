//! Renders the caption sent with a dispatched content item: who did what,
//! links to the content and its author, the item's own text, and a hard size
//! limit with a "read more" tail, since the chat platform caps caption
//! lengths.

use vstd::prelude::*;
use vstd::string::StrSliceExecFns;
use vstd::string::StringExecFns;

verus! {

/// What the watched user did with the content.
#[derive(Debug, Copy, Clone, PartialEq, Eq, Structural)]
pub enum ActionType {
    Liked,
    Shared,
    Posted,
}

/// A piece of text rendered as an HTML link.
#[derive(Debug)]
pub struct TextedLink {
    pub text: String,
    pub url: String,
}

/// The mathematical value of one link.
pub ghost struct LinkView {
    pub text: Seq<char>,
    pub url: Seq<char>,
}

impl View for TextedLink {
    type V = LinkView;

    open spec fn view(&self) -> LinkView {
        LinkView { text: self.text@, url: self.url@ }
    }
}

/// The HTML anchor a link renders to.
pub open spec fn link_html(l: LinkView) -> Seq<char> {
    "<a href=\""@ + l.url + "\">"@ + l.text + "</a>"@
}

impl TextedLink {
    pub fn new(text: &str, url: &str) -> (r: TextedLink)
        ensures
            r@ == (LinkView { text: text@, url: url@ }),
    {
        TextedLink { text: String::from_str(text), url: String::from_str(url) }
    }

    pub fn create_link(&self) -> (r: String)
        ensures
            r@ == link_html(self@),
    {
        let mut s = String::from_str("<a href=\"");
        s.append(self.url.as_str());
        s.append("\">");
        s.append(self.text.as_str());
        s.append("</a>");
        s
    }
}

/// The caption under construction.
#[derive(Debug)]
pub struct DescriptionBuilder {
    pub who: Option<TextedLink>,
    pub action: Option<ActionType>,
    pub content: Option<TextedLink>,
    pub from: Option<TextedLink>,
    pub description: Option<String>,
    pub size_limit: Option<usize>,
    pub achieved_content_size_limit: Option<bool>,
}

/// The mathematical value of a caption under construction.
pub ghost struct BuilderView {
    pub who: Option<LinkView>,
    pub action: Option<ActionType>,
    pub content: Option<LinkView>,
    pub from: Option<LinkView>,
    pub description: Option<Seq<char>>,
    pub size_limit: Option<usize>,
    pub achieved_content_size_limit: Option<bool>,
}

pub open spec fn opt_link_view(o: Option<TextedLink>) -> Option<LinkView> {
    match o {
        Some(l) => Some(l@),
        None => None,
    }
}

impl View for DescriptionBuilder {
    type V = BuilderView;

    open spec fn view(&self) -> BuilderView {
        BuilderView {
            who: opt_link_view(self.who),
            action: self.action,
            content: opt_link_view(self.content),
            from: opt_link_view(self.from),
            description: match self.description {
                Some(d) => Some(d@),
                None => None,
            },
            size_limit: self.size_limit,
            achieved_content_size_limit: self.achieved_content_size_limit,
        }
    }
}

/// The verb between the subject and the content link.
pub open spec fn action_text(a: Option<ActionType>) -> Seq<char> {
    match a {
        Some(ActionType::Liked) => " liked"@,
        Some(ActionType::Shared) => " shared"@,
        Some(ActionType::Posted) => " posted"@,
        None => " processed"@,
    }
}

/// The untruncated caption text of a builder.
pub open spec fn base_text(b: BuilderView) -> Seq<char> {
    "<i>"@ + (if b.achieved_content_size_limit == Some(true) {
        "<b>Attached video is too huge for inline display.</b>\n\n"@
    } else {
        Seq::<char>::empty()
    }) + (match b.who {
        Some(w) => link_html(w),
        None => Seq::<char>::empty(),
    }) + action_text(b.action) + (match b.content {
        Some(c) => " "@ + link_html(c),
        None => Seq::<char>::empty(),
    }) + (match b.from {
        Some(f) => " from "@ + link_html(f),
        None => Seq::<char>::empty(),
    }) + "</i>"@ + (match b.description {
        Some(d) => ":\n\n"@ + d,
        None => Seq::<char>::empty(),
    })
}

/// The tail appended when a caption is cut at its size limit.
pub open spec fn read_more_suffix() -> Seq<char> {
    "... [Read more in the source]"@
}

/// A text cut to `limit` characters: over the limit, the head is kept and the
/// "read more" tail fills the last characters; otherwise the text is whole.
pub open spec fn truncated(s: Seq<char>, limit: int) -> Seq<char> {
    if s.len() > limit {
        s.take(limit - read_more_suffix().len()) + read_more_suffix()
    } else {
        s
    }
}

/// The final caption of a builder: the base text, cut at the size limit when
/// one was set.
pub open spec fn build_spec(b: BuilderView) -> Seq<char> {
    match b.size_limit {
        Some(l) => truncated(base_text(b), l as int),
        None => base_text(b),
    }
}

impl DescriptionBuilder {
    pub fn new() -> (r: DescriptionBuilder)
        ensures
            r@ == (BuilderView {
                who: None,
                action: None,
                content: None,
                from: None,
                description: None,
                size_limit: None,
                achieved_content_size_limit: None,
            }),
    {
        DescriptionBuilder {
            who: None,
            action: None,
            content: None,
            from: None,
            description: None,
            size_limit: None,
            achieved_content_size_limit: None,
        }
    }

    pub fn who(self, text: &str, url: &str) -> (r: DescriptionBuilder)
        ensures
            r@ == (BuilderView { who: Some(LinkView { text: text@, url: url@ }), ..self@ }),
    {
        DescriptionBuilder { who: Some(TextedLink::new(text, url)), ..self }
    }

    pub fn action(self, action: ActionType) -> (r: DescriptionBuilder)
        ensures
            r@ == (BuilderView { action: Some(action), ..self@ }),
    {
        DescriptionBuilder { action: Some(action), ..self }
    }

    pub fn content(self, text: &str, url: &str) -> (r: DescriptionBuilder)
        ensures
            r@ == (BuilderView { content: Some(LinkView { text: text@, url: url@ }), ..self@ }),
    {
        DescriptionBuilder { content: Some(TextedLink::new(text, url)), ..self }
    }

    pub fn from(self, text: &str, url: &str) -> (r: DescriptionBuilder)
        ensures
            r@ == (BuilderView { from: Some(LinkView { text: text@, url: url@ }), ..self@ }),
    {
        DescriptionBuilder { from: Some(TextedLink::new(text, url)), ..self }
    }

    pub fn description(self, description: String) -> (r: DescriptionBuilder)
        ensures
            r@ == (BuilderView { description: Some(description@), ..self@ }),
    {
        DescriptionBuilder { description: Some(description), ..self }
    }

    pub fn size_limit(self, size_limit: usize) -> (r: DescriptionBuilder)
        ensures
            r@ == (BuilderView { size_limit: Some(size_limit), ..self@ }),
    {
        DescriptionBuilder { size_limit: Some(size_limit), ..self }
    }

    pub fn achieved_content_size_limit(self, achieved: bool) -> (r: DescriptionBuilder)
        ensures
            r@ == (BuilderView { achieved_content_size_limit: Some(achieved), ..self@ }),
    {
        DescriptionBuilder { achieved_content_size_limit: Some(achieved), ..self }
    }

    /// The untruncated caption text.
    #[verifier::rlimit(100)]
    fn base_string(&self) -> (r: String)
        ensures
            r@ == base_text(self@),
    {
        let mut description = String::from_str("<i>");
        let ghost t1 = "<i>"@ + (if self@.achieved_content_size_limit == Some(true) {
            "<b>Attached video is too huge for inline display.</b>\n\n"@
        } else {
            Seq::<char>::empty()
        });
        match self.achieved_content_size_limit {
            Some(true) => {
                description.append("<b>Attached video is too huge for inline display.</b>\n\n");
            },
            _ => {},
        }
        proof {
            assert(description@ =~= t1);
        }
        let ghost t2 = t1 + (match self@.who {
            Some(w) => link_html(w),
            None => Seq::<char>::empty(),
        });
        match &self.who {
            Some(who) => {
                let l = who.create_link();
                description.append(l.as_str());
            },
            None => {},
        }
        proof {
            assert(description@ =~= t2);
        }
        let ghost t3 = t2 + action_text(self@.action);
        match &self.action {
            Some(ActionType::Liked) => description.append(" liked"),
            Some(ActionType::Shared) => description.append(" shared"),
            Some(ActionType::Posted) => description.append(" posted"),
            None => description.append(" processed"),
        }
        proof {
            assert(description@ =~= t3);
        }
        let ghost t4 = t3 + (match self@.content {
            Some(c) => " "@ + link_html(c),
            None => Seq::<char>::empty(),
        });
        match &self.content {
            Some(content) => {
                description.append(" ");
                let l = content.create_link();
                description.append(l.as_str());
            },
            None => {},
        }
        proof {
            assert(description@ =~= t4);
        }
        let ghost t5 = t4 + (match self@.from {
            Some(f) => " from "@ + link_html(f),
            None => Seq::<char>::empty(),
        });
        match &self.from {
            Some(from) => {
                description.append(" from ");
                let l = from.create_link();
                description.append(l.as_str());
            },
            None => {},
        }
        proof {
            assert(description@ =~= t5);
        }
        let ghost t6 = t5 + "</i>"@;
        description.append("</i>");
        proof {
            assert(description@ =~= t6);
        }
        let ghost t7 = t6 + (match self@.description {
            Some(d) => ":\n\n"@ + d,
            None => Seq::<char>::empty(),
        });
        match &self.description {
            Some(desc) => {
                description.append(":\n\n");
                description.append(desc.as_str());
            },
            None => {},
        }
        proof {
            assert(description@ =~= t7);
            assert(t7 =~= base_text(self@));
        }
        description
    }

    /// Render the caption.  A size limit below the length of the "read more"
    /// tail cannot be honoured (the callers use limits of a kilobyte or
    /// more).
    pub fn build(&self) -> (r: String)
        requires
            self@.size_limit matches Some(l) ==> l as int >= read_more_suffix().len(),
        ensures
            r@ == build_spec(self@),
    {
        let description = self.base_string();
        match self.size_limit {
            Some(limit) => {
                let total = description.as_str().unicode_len();
                if total > limit {
                    let suffix = "... [Read more in the source]";
                    let keep = limit - suffix.unicode_len();
                    let head = description.as_str().substring_char(0, keep);
                    let mut out = String::from_str(head);
                    out.append(suffix);
                    proof {
                        assert(out@ =~= truncated(base_text(self@), limit as int));
                    }
                    out
                } else {
                    description
                }
            },
            None => description,
        }
    }
}

} // verus!
