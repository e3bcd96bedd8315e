//! Properties of rendering that hold for every input, proved over the models.
use vstd::prelude::*;

use crate::error::{RenderErrorModel, SyntaxError, TemplateErrorModel};
use crate::parser::{has_delimiter, is_identifier, node_of, parse_from, parse_spec, NodeModel};
use crate::render::render_nodes;
use crate::render_text;
use crate::scanner::{close_dist, is_close, is_open, open_dist, token_at, token_end, Token};
use crate::text::{is_space, trim, trim_start};

verus! {

/// Whether rendering can resolve the node `n` against `ctx`.
pub open spec fn resolves(n: NodeModel, ctx: Map<Seq<char>, Seq<char>>) -> bool {
    match n {
        NodeModel::Literal(_) => true,
        NodeModel::VariableRef { name, .. } => ctx.contains_key(name),
    }
}

/// `s` holds no opening marker, so no placeholder.
pub open spec fn is_literal_only(s: Seq<char>) -> bool {
    forall|i: int| !is_open(s, i)
}

proof fn lemma_open_dist_none(s: Seq<char>, j: int)
    requires
        0 <= j <= s.len(),
        is_literal_only(s),
    ensures
        open_dist(s, j) == s.len() - j,
    decreases s.len() - j,
{
    if j < s.len() {
        lemma_open_dist_none(s, j + 1);
    }
}

proof fn lemma_close_dist_at(s: Seq<char>, j: int, c: int)
    requires
        0 <= j <= c,
        is_close(s, c),
        forall|k: int| j <= k < c ==> !is_close(s, k),
    ensures
        close_dist(s, j) == Some((c - j) as nat),
    decreases c - j,
{
    if j < c {
        lemma_close_dist_at(s, j + 1, c);
    }
}

/// Every node of `nodes` resolves against `ctx`.
pub open spec fn all_resolve(nodes: Seq<NodeModel>, ctx: Map<Seq<char>, Seq<char>>) -> bool {
    forall|k: int| 0 <= k < nodes.len() ==> resolves(#[trigger] nodes[k], ctx)
}

/// `j` is the leftmost node of `nodes` that does not resolve against `ctx`.
pub open spec fn is_first_unresolved(
    nodes: Seq<NodeModel>,
    ctx: Map<Seq<char>, Seq<char>>,
    j: int,
) -> bool {
    &&& 0 <= j < nodes.len()
    &&& !resolves(nodes[j], ctx)
    &&& forall|k: int| 0 <= k < j ==> resolves(#[trigger] nodes[k], ctx)
}

/// The error `e` reports the variable reference `n`.
pub open spec fn reports(e: RenderErrorModel, n: NodeModel) -> bool {
    match e {
        RenderErrorModel::UndefinedVariable { name, offset } => n == (NodeModel::VariableRef {
            name,
            offset,
        }),
    }
}

/// `r` is an undefined-variable error that reports the leftmost node of
/// `nodes`, at or before `i`, that does not resolve against `ctx`.
pub open spec fn fails_on_first_missing(
    r: Result<Seq<char>, TemplateErrorModel>,
    nodes: Seq<NodeModel>,
    ctx: Map<Seq<char>, Seq<char>>,
    i: int,
) -> bool {
    match r {
        Err(TemplateErrorModel::Render(e)) => exists|j: int|
            0 <= j <= i && is_first_unresolved(nodes, ctx, j) && reports(e, #[trigger] nodes[j]),
        _ => false,
    }
}

/// Rendering succeeds exactly when every node resolves, and otherwise reports
/// the leftmost node that does not.
pub proof fn lemma_render_outcome(nodes: Seq<NodeModel>, ctx: Map<Seq<char>, Seq<char>>)
    ensures
        (render_nodes(nodes, ctx) is Ok) == all_resolve(nodes, ctx),
        render_nodes(nodes, ctx) is Err ==> (exists|j: int|
            is_first_unresolved(nodes, ctx, j) && reports(
                render_nodes(nodes, ctx)->Err_0,
                #[trigger] nodes[j],
            )),
    decreases nodes.len(),
{
    if nodes.len() > 0 {
        let init = nodes.drop_last();
        lemma_render_outcome(init, ctx);
        assert(forall|k: int| 0 <= k < init.len() ==> init[k] == nodes[k]);
        if render_nodes(init, ctx) is Ok {
            assert(resolves(nodes[nodes.len() - 1], ctx) <==> render_nodes(nodes, ctx) is Ok);
            if render_nodes(nodes, ctx) is Err {
                assert(is_first_unresolved(nodes, ctx, nodes.len() - 1));
            }
        } else {
            let j = choose|j: int|
                is_first_unresolved(init, ctx, j) && reports(
                    render_nodes(init, ctx)->Err_0,
                    #[trigger] init[j],
                );
            assert(is_first_unresolved(nodes, ctx, j));
        }
    }
}

/// A template without placeholders renders to its own text, whatever the
/// context holds.
pub proof fn law_literal_text_unchanged(s: Seq<char>, ctx: Map<Seq<char>, Seq<char>>)
    requires
        s.len() <= usize::MAX,
        is_literal_only(s),
    ensures
        render_text(s, ctx) == Ok::<Seq<char>, TemplateErrorModel>(s),
{
    if s.len() == 0 {
        assert(parse_spec(s) == Ok::<Seq<NodeModel>, SyntaxError>(Seq::empty()));
        assert(render_nodes(Seq::empty(), ctx) == Ok::<Seq<char>, RenderErrorModel>(
            Seq::empty(),
        ));
        assert(s =~= Seq::<char>::empty());
    } else {
        lemma_open_dist_none(s, 1);
        assert(s.subrange(0, s.len() as int) =~= s);
        assert(parse_from(s, s.len() as int) == Ok::<Seq<NodeModel>, SyntaxError>(Seq::empty()));
        let nodes = seq![NodeModel::Literal(s)];
        assert(seq![NodeModel::Literal(s)] + Seq::<NodeModel>::empty() =~= nodes);
        assert(parse_spec(s) == Ok::<Seq<NodeModel>, SyntaxError>(nodes));
        assert(nodes.drop_last() =~= Seq::<NodeModel>::empty());
        assert(Seq::<char>::empty() + s =~= s);
    }
}

/// Rendering a template without placeholders twice, with any two contexts,
/// gives the same text both times.
pub proof fn law_literal_render_repeatable(
    s: Seq<char>,
    ctx1: Map<Seq<char>, Seq<char>>,
    ctx2: Map<Seq<char>, Seq<char>>,
)
    requires
        s.len() <= usize::MAX,
        is_literal_only(s),
    ensures
        render_text(s, ctx1) == render_text(s, ctx2),
        render_text(s, ctx1) == Ok::<Seq<char>, TemplateErrorModel>(s),
{
    law_literal_text_unchanged(s, ctx1);
    law_literal_text_unchanged(s, ctx2);
}

/// A template made of one placeholder naming `name` renders to the value that
/// `ctx` gives `name`.
pub proof fn law_single_placeholder(name: Seq<char>, v: Seq<char>, ctx: Map<Seq<char>, Seq<char>>)
    requires
        is_identifier(name),
        name.len() + 4 <= usize::MAX,
        ctx.contains_key(name),
        ctx[name] == v,
    ensures
        render_text(seq!['{', '{'] + name + seq!['}', '}'], ctx) == Ok::<Seq<char>, TemplateErrorModel>(v),
{
    let s = seq!['{', '{'] + name + seq!['}', '}'];
    let n = name.len() as int;
    assert(s.len() == n + 4);
    assert(is_open(s, 0));
    assert forall|k: int| 2 <= k < 2 + n implies !is_close(s, k) by {
        assert(s[k] == name[k - 2]);
    }
    assert(is_close(s, 2 + n));
    lemma_close_dist_at(s, 2, 2 + n);
    assert(s.subrange(2, 2 + n) =~= name);
    assert(trim_start(name) == name);
    assert(trim(s.subrange(2, 2 + n)) == name);
    assert(!has_delimiter(name));
    let t = Token::Placeholder { open: 0, close: (2 + n) as usize };
    assert(token_at(s, 0) == Ok::<Token, SyntaxError>(t));
    assert(node_of(s, t) == Ok::<NodeModel, SyntaxError>(NodeModel::VariableRef { name, offset: 0 }));
    assert(token_end(t) == n + 4);
    assert(parse_from(s, n + 4) == Ok::<Seq<NodeModel>, SyntaxError>(Seq::empty()));
    let nodes = seq![NodeModel::VariableRef { name, offset: 0 }];
    assert(nodes + Seq::<NodeModel>::empty() =~= nodes);
    assert(parse_spec(s) == Ok::<Seq<NodeModel>, SyntaxError>(nodes));
    assert(nodes.drop_last() =~= Seq::<NodeModel>::empty());
    assert(render_nodes(nodes.drop_last(), ctx) == Ok::<Seq<char>, RenderErrorModel>(
        Seq::empty(),
    ));
    assert(Seq::<char>::empty() + v =~= v);
    assert(render_nodes(nodes, ctx) == Ok::<Seq<char>, RenderErrorModel>(v));
}

/// A template that parses, with a reference to a name that `ctx` lacks, fails
/// with an undefined-variable error, never with text. The error reports the
/// leftmost reference that does not resolve.
pub proof fn law_missing_name_fails(s: Seq<char>, ctx: Map<Seq<char>, Seq<char>>, i: int)
    requires
        parse_spec(s) is Ok,
        0 <= i < parse_spec(s)->Ok_0.len(),
        !resolves(parse_spec(s)->Ok_0[i], ctx),
    ensures
        fails_on_first_missing(render_text(s, ctx), parse_spec(s)->Ok_0, ctx, i),
{
    let nodes = parse_spec(s)->Ok_0;
    lemma_render_outcome(nodes, ctx);
    let j = choose|j: int|
        is_first_unresolved(nodes, ctx, j) && reports(
            render_nodes(nodes, ctx)->Err_0,
            #[trigger] nodes[j],
        );
    assert(j <= i);
}

/// The error that the template `{{ }}` gives.
pub open spec fn blank_placeholder_error() -> Result<Seq<char>, TemplateErrorModel> {
    Err(TemplateErrorModel::Syntax(SyntaxError::EmptyPlaceholder { offset: 0 }))
}

/// The template `{{ }}` fails with an empty-placeholder error at its start,
/// whatever the context holds.
pub proof fn law_blank_placeholder_fails(ctx: Map<Seq<char>, Seq<char>>)
    ensures
        render_text(seq!['{', '{', ' ', '}', '}'], ctx) == blank_placeholder_error(),
{
    let s = seq!['{', '{', ' ', '}', '}'];
    assert(is_open(s, 0));
    assert(!is_close(s, 2));
    assert(is_close(s, 3));
    lemma_close_dist_at(s, 2, 3);
    let inner = s.subrange(2, 3);
    assert(inner =~= seq![' ']);
    assert(inner.drop_first() =~= Seq::<char>::empty());
    assert(is_space(inner[0]));
    assert(trim_start(inner) == trim_start(Seq::<char>::empty()));
    assert(trim(inner).len() == 0);
}

} // verus!
