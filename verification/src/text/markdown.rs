//! Markdown handling: a reply can be parsed as GitHub-flavored markdown
//! and rendered back as its plain text content.  The tree is opaque, so a
//! ghost copy of the parsed text rides along and the contracts speak of
//! that text: what comes out is a function of what went in.
use vstd::prelude::*;

verus! {

#[verifier::external_type_specification]
#[verifier::external_body]
pub struct ExNode(markdown::mdast::Node);

/// Whether GitHub-flavored markdown parsing accepts the text.  The parser
/// is deterministic, so this is a function of the text alone.
pub uninterp spec fn md_parses(s: Seq<char>) -> bool;

/// The plain text content of markdown text: what parsing it and rendering
/// the tree's literal values back yields, a function of the text alone.
pub uninterp spec fn md_text_of(s: Seq<char>) -> Seq<char>;

/// A reply held as its parsed markdown syntax tree, with a ghost copy of
/// the text it was parsed from.
pub struct RKBMarkdown {
    node: markdown::mdast::Node,
    source: Ghost<Seq<char>>,
}

/// Relies on `markdown::to_mdast` with `ParseOptions::gfm()`: parsing
/// succeeds exactly on the texts the parser accepts (`md_parses` names
/// that set).
#[verifier::external_body]
fn to_mdast_gfm(value: &str) -> (r: Option<markdown::mdast::Node>)
    ensures
        r is Some <==> md_parses(value@),
{
    markdown::to_mdast(value, &markdown::ParseOptions::gfm()).ok()
}

impl RKBMarkdown {
    /// The text the tree was parsed from.
    pub closed spec fn spec_source(&self) -> Seq<char> {
        self.source@
    }

    /// Parses markdown text; `None` exactly when the parser refuses it.
    /// Only this constructor builds the type, so every tree's `source` is
    /// the text it was parsed from.
    pub fn from(value: &str) -> (r: Option<RKBMarkdown>)
        ensures
            r is Some <==> md_parses(value@),
            r matches Some(m) ==> m.spec_source() == value@,
    {
        match to_mdast_gfm(value) {
            Option::Some(node) => Some(RKBMarkdown { node, source: Ghost(value@) }),
            Option::None => None,
        }
    }

    /// Relies on `mdast::Node`'s `ToString`: the tree's plain text content,
    /// markup dropped — a function of the parsed text alone (`md_text_of`
    /// names it), so two trees parsed from equal text render equally.
    #[verifier::external_body]
    pub fn to_string(&self) -> (r: String)
        ensures
            r@ == md_text_of(self.spec_source()),
    {
        self.node.to_string()
    }
}

} // verus!
