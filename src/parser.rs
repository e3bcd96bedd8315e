//! Turns template text into a sequence of render nodes.
use vstd::prelude::*;

use crate::error::SyntaxError;
use crate::scanner::{lemma_token_at, scan_token, token_at, token_end, Token};
use crate::text::{chars_of, is_space, lemma_trim_ends, string_of, trim, trimmed_bounds};

verus! {

/// A parsed unit of a template.
#[derive(Debug, Clone, PartialEq, Eq)]
pub enum RenderNode {
    /// Text emitted as it stands.
    Literal(String),
    /// A reference to a variable; `offset` is where its opening marker stands.
    VariableRef { name: String, offset: usize },
}

/// What a `RenderNode` says, as plain values.
pub enum NodeModel {
    Literal(Seq<char>),
    VariableRef { name: Seq<char>, offset: usize },
}

impl View for RenderNode {
    type V = NodeModel;

    open spec fn view(&self) -> NodeModel {
        match self {
            RenderNode::Literal(t) => NodeModel::Literal(t@),
            RenderNode::VariableRef { name, offset } => NodeModel::VariableRef {
                name: name@,
                offset: *offset,
            },
        }
    }
}

/// A name that a placeholder may hold: not empty, no padding at either end,
/// and no delimiter character.
pub open spec fn is_identifier(name: Seq<char>) -> bool {
    &&& name.len() > 0
    &&& !is_space(name[0])
    &&& !is_space(name.last())
    &&& forall|k: int| 0 <= k < name.len() ==> name[k] != '{' && name[k] != '}'
}

/// Every variable reference among `nodes` names an identifier.
pub open spec fn names_are_identifiers(nodes: Seq<NodeModel>) -> bool {
    forall|k: int|
        0 <= k < nodes.len() ==> (#[trigger] nodes[k] matches NodeModel::VariableRef { name, .. }
            ==> is_identifier(name))
}

/// Each name that parsing yields is an identifier.
pub proof fn lemma_parsed_names(s: Seq<char>, i: int)
    requires
        parse_from(s, i) is Ok,
    ensures
        names_are_identifiers(parse_from(s, i)->Ok_0),
    decreases s.len() - i,
{
    if 0 <= i < s.len() <= usize::MAX {
        lemma_token_at(s, i);
        let t = token_at(s, i)->Ok_0;
        let n = node_of(s, t)->Ok_0;
        lemma_parsed_names(s, token_end(t));
        let rest = parse_from(s, token_end(t))->Ok_0;
        assert(parse_from(s, i)->Ok_0 == seq![n] + rest);
        if let NodeModel::VariableRef { name, .. } = n {
            if let Token::Placeholder { open, close } = t {
                let inner = s.subrange(open + 2, close as int);
                lemma_trim_ends(inner);
            }
            assert(!has_delimiter(name));
        }
        let all = seq![n] + rest;
        assert forall|k: int| 0 <= k < all.len() implies (#[trigger] all[k] matches NodeModel::VariableRef {
            name,
            ..
        } ==> is_identifier(name)) by {
            if k > 0 {
                assert(all[k] == rest[k - 1]);
            }
        }
    }
}

/// Whether `name` holds a delimiter character.
pub open spec fn has_delimiter(name: Seq<char>) -> bool {
    exists|k: int| 0 <= k < name.len() && (name[k] == '{' || name[k] == '}')
}

/// The node that the token `t` of `s` becomes.
pub open spec fn node_of(s: Seq<char>, t: Token) -> Result<NodeModel, SyntaxError> {
    match t {
        Token::Text { start, end } => Ok(NodeModel::Literal(s.subrange(start as int, end as int))),
        Token::Placeholder { open, close } => {
            let name = trim(s.subrange(open + 2, close as int));
            if name.len() == 0 {
                Err(SyntaxError::EmptyPlaceholder { offset: open })
            } else if has_delimiter(name) {
                Err(SyntaxError::InvalidPlaceholder { offset: open })
            } else {
                Ok(NodeModel::VariableRef { name, offset: open })
            }
        },
    }
}

/// `head` followed by what `rest` holds, or the error of `rest`.
pub open spec fn prepend(head: Seq<NodeModel>, rest: Result<Seq<NodeModel>, SyntaxError>) -> Result<
    Seq<NodeModel>,
    SyntaxError,
> {
    match rest {
        Ok(nodes) => Ok(head + nodes),
        Err(e) => Err(e),
    }
}

/// The nodes of `s` from position `i` on, or the first syntax defect there.
pub open spec fn parse_from(s: Seq<char>, i: int) -> Result<Seq<NodeModel>, SyntaxError>
    decreases s.len() - i,
{
    if i < 0 || i >= s.len() || s.len() > usize::MAX {
        Ok(Seq::empty())
    } else {
        match token_at(s, i) {
            Err(e) => Err(e),
            Ok(t) => match node_of(s, t) {
                Err(e) => Err(e),
                Ok(n) => {
                    proof {
                        lemma_token_at(s, i);
                    }
                    prepend(seq![n], parse_from(s, token_end(t)))
                },
            },
        }
    }
}

/// The nodes of the template text `s`, or its first syntax defect.
pub open spec fn parse_spec(s: Seq<char>) -> Result<Seq<NodeModel>, SyntaxError> {
    parse_from(s, 0)
}

/// A parsed template: literal text and variable references, in order.
#[derive(Debug, Clone)]
pub struct Template {
    nodes: Vec<RenderNode>,
}

impl View for Template {
    type V = Seq<NodeModel>;

    closed spec fn view(&self) -> Seq<NodeModel> {
        Seq::new(self.nodes.len() as nat, |i: int| self.nodes[i]@)
    }
}

impl Template {
    /// The nodes, in order.
    pub fn nodes(&self) -> (r: &Vec<RenderNode>)
        ensures
            r.len() == self@.len(),
            forall|i: int| 0 <= i < r.len() ==> r[i]@ == self@[i],
    {
        &self.nodes
    }

    /// The number of nodes.
    pub fn len(&self) -> (r: usize)
        ensures
            r == self@.len(),
    {
        self.nodes.len()
    }
}

fn has_delimiter_in(v: &Vec<char>, lo: usize, hi: usize) -> (r: bool)
    requires
        lo <= hi <= v.len(),
    ensures
        r == has_delimiter(v@.subrange(lo as int, hi as int)),
{
    let mut k: usize = lo;
    while k < hi
        invariant
            lo <= k <= hi <= v.len(),
            forall|j: int| lo <= j < k ==> v@[j] != '{' && v@[j] != '}',
        decreases hi - k,
    {
        if v[k] == '{' || v[k] == '}' {
            assert(v@.subrange(lo as int, hi as int)[k - lo] == v@[k as int]);
            return true;
        }
        k = k + 1;
    }
    assert(!has_delimiter(v@.subrange(lo as int, hi as int))) by {
        assert forall|j: int| 0 <= j < hi - lo implies v@.subrange(lo as int, hi as int)[j] != '{'
            && v@.subrange(lo as int, hi as int)[j] != '}' by {
            assert(v@.subrange(lo as int, hi as int)[j] == v@[lo + j]);
        }
    }
    false
}

/// The node that the token `t` becomes.
fn make_node(v: &Vec<char>, t: Token) -> (r: Result<RenderNode, SyntaxError>)
    requires
        match t {
            Token::Text { start, end } => start <= end <= v.len(),
            Token::Placeholder { open, close } => open + 2 <= close <= v.len(),
        },
    ensures
        match r {
            Ok(n) => node_of(v@, t) == Ok::<NodeModel, SyntaxError>(n@),
            Err(e) => node_of(v@, t) == Err::<NodeModel, SyntaxError>(e),
        },
{
    match t {
        Token::Text { start, end } => Ok(RenderNode::Literal(string_of(v, start, end))),
        Token::Placeholder { open, close } => {
            let (a, b) = trimmed_bounds(v, open + 2, close);
            if a == b {
                Err(SyntaxError::EmptyPlaceholder { offset: open })
            } else if has_delimiter_in(v, a, b) {
                Err(SyntaxError::InvalidPlaceholder { offset: open })
            } else {
                Ok(RenderNode::VariableRef { name: string_of(v, a, b), offset: open })
            }
        },
    }
}

/// Parses the characters `v` of a template.
pub fn parse_chars(v: &Vec<char>) -> (r: Result<Template, SyntaxError>)
    ensures
        r is Ok ==> names_are_identifiers(r->Ok_0@),
        match r {
            Ok(t) => parse_spec(v@) == Ok::<Seq<NodeModel>, SyntaxError>(t@),
            Err(e) => parse_spec(v@) == Err::<Seq<NodeModel>, SyntaxError>(e),
        },
{
    let mut nodes: Vec<RenderNode> = Vec::new();
    let mut i: usize = 0;
    while i < v.len()
        invariant
            i <= v.len(),
            parse_spec(v@) == prepend(
                Seq::new(nodes.len() as nat, |j: int| nodes[j]@),
                parse_from(v@, i as int),
            ),
        decreases v.len() - i,
    {
        proof {
            lemma_token_at(v@, i as int);
        }
        let ghost before = Seq::new(nodes.len() as nat, |j: int| nodes[j]@);
        let t = match scan_token(v, i) {
            Ok(t) => t,
            Err(e) => return Err(e),
        };
        let n = match make_node(v, t) {
            Ok(n) => n,
            Err(e) => return Err(e),
        };
        let next: usize = match t {
            Token::Text { end, .. } => end,
            Token::Placeholder { close, .. } => close + 2,
        };
        nodes.push(n);
        proof {
            let after = Seq::new(nodes.len() as nat, |j: int| nodes[j]@);
            assert(after =~= before + seq![n@]);
            let rest = parse_from(v@, next as int);
            match rest {
                Ok(ns) => {
                    assert(before + (seq![n@] + ns) =~= after + ns);
                },
                Err(_) => {},
            }
        }
        i = next;
    }
    proof {
        let all = Seq::new(nodes.len() as nat, |j: int| nodes[j]@);
        assert(all + Seq::<NodeModel>::empty() =~= all);
        lemma_parsed_names(v@, 0);
    }
    Ok(Template { nodes })
}

/// Parses template text into its nodes, or reports the first syntax defect
/// from the left.
pub fn parse(text: &str) -> (r: Result<Template, SyntaxError>)
    ensures
        r is Ok ==> names_are_identifiers(r->Ok_0@),
        match r {
            Ok(t) => parse_spec(text@) == Ok::<Seq<NodeModel>, SyntaxError>(t@),
            Err(e) => parse_spec(text@) == Err::<Seq<NodeModel>, SyntaxError>(e),
        },
{
    let v = chars_of(text);
    parse_chars(&v)
}

} // verus!
