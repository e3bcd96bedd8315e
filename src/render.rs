//! Substitutes values into a parsed template, failing on the first name that
//! the context lacks.
use vstd::prelude::*;

use crate::context::VariableContext;
use crate::error::{RenderError, RenderErrorModel};
use crate::parser::{NodeModel, RenderNode, Template};
use crate::text::push_all;

verus! {

/// The text that `nodes` render to against `ctx`, or the first reference, from
/// the left, to a name that `ctx` lacks.
pub open spec fn render_nodes(nodes: Seq<NodeModel>, ctx: Map<Seq<char>, Seq<char>>) -> Result<
    Seq<char>,
    RenderErrorModel,
>
    decreases nodes.len(),
{
    if nodes.len() == 0 {
        Ok(Seq::empty())
    } else {
        match render_nodes(nodes.drop_last(), ctx) {
            Err(e) => Err(e),
            Ok(out) => match nodes.last() {
                NodeModel::Literal(t) => Ok(out + t),
                NodeModel::VariableRef { name, offset } => {
                    if ctx.contains_key(name) {
                        Ok(out + ctx[name])
                    } else {
                        Err(RenderErrorModel::UndefinedVariable { name, offset })
                    }
                },
            },
        }
    }
}

/// A failure in the first `n` nodes is the failure of all of them.
pub proof fn lemma_render_prefix_err(nodes: Seq<NodeModel>, n: int, ctx: Map<Seq<char>, Seq<char>>)
    requires
        0 <= n <= nodes.len(),
        render_nodes(nodes.take(n), ctx) is Err,
    ensures
        render_nodes(nodes, ctx) == render_nodes(nodes.take(n), ctx),
    decreases nodes.len(),
{
    if n < nodes.len() {
        assert(nodes.drop_last().take(n) =~= nodes.take(n));
        lemma_render_prefix_err(nodes.drop_last(), n, ctx);
    } else {
        assert(nodes.take(n) =~= nodes);
    }
}

/// Renders `template` against `ctx`. Nothing is returned but the error when a
/// referenced name has no value.
pub fn render(template: &Template, ctx: &VariableContext) -> (r: Result<String, RenderError>)
    ensures
        match r {
            Ok(s) => render_nodes(template@, ctx@) == Ok::<Seq<char>, RenderErrorModel>(s@),
            Err(e) => render_nodes(template@, ctx@) == Err::<Seq<char>, RenderErrorModel>(e@),
        },
{
    let nodes = template.nodes();
    let mut out = String::new();
    let mut i: usize = 0;
    while i < nodes.len()
        invariant
            i <= nodes.len() == template@.len(),
            forall|j: int| 0 <= j < nodes.len() ==> nodes[j]@ == template@[j],
            render_nodes(template@.take(i as int), ctx@) == Ok::<Seq<char>, RenderErrorModel>(
                out@,
            ),
        decreases nodes.len() - i,
    {
        assert(template@.take(i + 1).drop_last() =~= template@.take(i as int));
        match &nodes[i] {
            RenderNode::Literal(t) => {
                push_all(&mut out, t);
            },
            RenderNode::VariableRef { name, offset } => {
                match ctx.get(name) {
                    Some(v) => {
                        push_all(&mut out, v);
                    },
                    None => {
                        proof {
                            lemma_render_prefix_err(template@, i + 1, ctx@);
                        }
                        return Err(RenderError::UndefinedVariable { name: name.clone(), offset: *offset });
                    },
                }
            },
        }
        i = i + 1;
    }
    assert(template@.take(i as int) =~= template@);
    Ok(out)
}

} // verus!
