//! A node's properties and what the listener reads from them: its role and
//! its display name.

use crate::types::NodeType;
use vstd::prelude::*;

verus! {

/// The properties of a node that the listener reads, each absent or a string.
pub struct NodeProps {
    /// "node.description"
    pub description: Option<String>,
    /// "node.nick"
    pub nick: Option<String>,
    /// "node.name"
    pub name: Option<String>,
    /// "media.category"
    pub media_category: Option<String>,
    /// "media.class"
    pub media_class: Option<String>,
}

/// `pat` occurs in `s` as a contiguous run.
pub open spec fn has_infix(s: Seq<char>, pat: Seq<char>) -> bool {
    exists|i: int|
        0 <= i && i + pat.len() <= s.len() && #[trigger] s.subrange(i, i + pat.len()) == pat
}

/// Relies on str::contains with a string pattern: true exactly when `pat`
/// occurs in `s`.
#[verifier::external_body]
fn str_contains(s: &str, pat: &str) -> (r: bool)
    ensures
        r == has_infix(s@, pat@),
{
    s.contains(pat)
}

/// The role that a media class names: "Sink" before "Source".
pub open spec fn class_role(class: Seq<char>) -> Option<NodeType> {
    if has_infix(class, "Sink"@) {
        Some(NodeType::Sink)
    } else if has_infix(class, "Source"@) {
        Some(NodeType::Source)
    } else {
        None
    }
}

/// A duplex category leaves a node unclassified; otherwise its class decides.
pub open spec fn role_of(p: NodeProps) -> Option<NodeType> {
    match p.media_category {
        Some(c) if has_infix(c@, "Duplex"@) => None,
        _ => match p.media_class {
            Some(class) => class_role(class@),
            None => None,
        },
    }
}

/// The description, else the nick, else the name, else the empty string.
pub open spec fn display_name_of(p: NodeProps) -> Seq<char> {
    match p.description {
        Some(d) => d@,
        None => match p.nick {
            Some(n) => n@,
            None => match p.name {
                Some(n) => n@,
                None => Seq::empty(),
            },
        },
    }
}

/// The role that a media class names.
pub fn classify_class(class: &str) -> (r: Option<NodeType>)
    ensures
        r == class_role(class@),
{
    if str_contains(class, "Sink") {
        Some(NodeType::Sink)
    } else if str_contains(class, "Source") {
        Some(NodeType::Source)
    } else {
        None
    }
}

/// Classify a node by its properties.
pub fn classify(props: &NodeProps) -> (r: Option<NodeType>)
    ensures
        r == role_of(*props),
{
    if let Some(c) = &props.media_category {
        if str_contains(c.as_str(), "Duplex") {
            return None;
        }
    }
    match &props.media_class {
        Some(class) => classify_class(class.as_str()),
        None => None,
    }
}

/// The name under which a node is shown.
pub fn display_name(props: &NodeProps) -> (r: String)
    ensures
        r@ == display_name_of(*props),
{
    match &props.description {
        Some(d) => d.clone(),
        None => match &props.nick {
            Some(n) => n.clone(),
            None => match &props.name {
                Some(n) => n.clone(),
                None => String::new(),
            },
        },
    }
}

} // verus!
