//! Resolved node trees, contexts, and rendering.
//!
//! The tree resolver walks a view description, registers every embedded
//! component in the registry, and produces a [`Node`] tree wired to the
//! identities of its owning components.  Rendering walks a node tree with a
//! [`Context`] and produces the markup text; for a fixed node tree and fixed
//! registry contents the output is a pure function of the two, stated by
//! [`node_text`].

use vstd::prelude::*;

use crate::component::Component;
use crate::html::{
    attributes_model, attributes_text, block_model, children_model_depth, component_depth,
    component_ref_depth, html_height, html_model, lemma_attributes_text_push,
    htmls_model, lemma_child_measures, lemma_htmls_model, model_depth, nat_max, AttrModel,
    Attribute, Block, ComponentRef, Html, HtmlModel, RefModel, Segment,
};
use crate::registry::{entry_wf, registry_wf, Entry, Identity, Registry};

verus! {

/// A rendering failure.
///
/// `NotFound` signals a registry invariant violation (an identity that does
/// not resolve); `UnknownQuery` signals an extraction query the target
/// component does not recognize.  Both are programmer errors, surfaced as
/// values so a caller can halt.  `NotMounted` signals a render before the
/// root was mounted.
#[derive(Clone, Copy, PartialEq, Eq, Structural, Debug)]
pub enum RenderError {
    NotFound(Identity),
    UnknownQuery,
    NotMounted,
}

/// What a resolved node instantiates: a registered component, or an inline
/// text block evaluated against the render context.
pub enum Inner<Q> {
    Component(Identity),
    Block(Block<Q>),
}

/// A resolved attribute list.
pub struct Attributes {
    inner: Vec<Attribute>,
}

impl View for Attributes {
    type V = Seq<AttrModel>;

    closed spec fn view(&self) -> Seq<AttrModel> {
        attributes_model(self.inner@)
    }
}

/// Rendered child markup: one string per child node, in child order.
pub struct Props {
    inner: Vec<String>,
}

impl View for Props {
    type V = Seq<Seq<char>>;

    closed spec fn view(&self) -> Seq<Seq<char>> {
        self.inner.deep_view()
    }
}

/// A resolved node: its reference variant, resolved attributes, resolved
/// child nodes, and the identity of its owning component.
pub struct Node<Q> {
    pub inner: Inner<Q>,
    pub attributes: Attributes,
    pub props: Vec<Node<Q>>,
    pub owner: Identity,
}

/// A resolved tree together with the identity of the component that owns it.
pub struct Tree<Q> {
    pub node: Node<Q>,
    pub identity: Identity,
}

/// A per-render bundle: the owning component, the rendered child markup and
/// the attribute set, passed down while walking the tree.
pub struct Context<C> {
    component: C,
    pub props: Props,
    pub attributes: Attributes,
}

/// The mathematical model of a render context.
#[verifier::ext_equal]
pub struct ContextModel<C> {
    pub component: C,
    pub props: Seq<Seq<char>>,
    pub attributes: Seq<AttrModel>,
}

impl<C> View for Context<C> {
    type V = ContextModel<C>;

    closed spec fn view(&self) -> ContextModel<C> {
        ContextModel {
            component: self.component,
            props: self.props@,
            attributes: self.attributes@,
        }
    }
}

// ---------------------------------------------------------------------------
// Identity bounds of a node tree
// ---------------------------------------------------------------------------
/// Every component identity in the tree is at least `lo`.
pub open spec fn node_ids_ge<Q>(n: Node<Q>, lo: nat) -> bool
    decreases n,
{
    &&& match n.inner {
        Inner::Component(id) => lo <= id.id,
        Inner::Block(_) => true,
    }
    &&& forall|i: int|
        0 <= i < n.props@.len() ==> node_ids_ge(#[trigger] n.props@[i], lo)
}

/// Every component identity in the tree is below `hi`.
pub open spec fn node_ids_lt<Q>(n: Node<Q>, hi: nat) -> bool
    decreases n,
{
    &&& match n.inner {
        Inner::Component(id) => id.id < hi,
        Inner::Block(_) => true,
    }
    &&& forall|i: int|
        0 <= i < n.props@.len() ==> node_ids_lt(#[trigger] n.props@[i], hi)
}

/// A lower identity bound can be weakened.
pub proof fn lemma_node_ids_ge_mono<Q>(n: Node<Q>, a: nat, b: nat)
    requires
        node_ids_ge(n, a),
        b <= a,
    ensures
        node_ids_ge(n, b),
    decreases n,
{
    assert forall|i: int| 0 <= i < n.props@.len() implies node_ids_ge(
        #[trigger] n.props@[i],
        b,
    ) by {
        lemma_node_ids_ge_mono(n.props@[i], a, b);
    }
}

/// Zero is a lower bound of every tree's identities.
pub proof fn lemma_node_ids_ge_zero<Q>(n: Node<Q>)
    ensures
        node_ids_ge(n, 0),
    decreases n,
{
    assert forall|i: int| 0 <= i < n.props@.len() implies node_ids_ge(
        #[trigger] n.props@[i],
        0,
    ) by {
        lemma_node_ids_ge_zero(n.props@[i]);
    }
}

/// An upper identity bound can be weakened.
pub proof fn lemma_node_ids_lt_mono<Q>(n: Node<Q>, a: nat, b: nat)
    requires
        node_ids_lt(n, a),
        a <= b,
    ensures
        node_ids_lt(n, b),
    decreases n,
{
    assert forall|i: int| 0 <= i < n.props@.len() implies node_ids_lt(
        #[trigger] n.props@[i],
        b,
    ) by {
        lemma_node_ids_lt_mono(n.props@[i], a, b);
    }
}

/// Every component identity in the tree is registered and its entry has a
/// tree installed, so rendering the tree can never fail with `NotFound`.
pub open spec fn node_ids_installed<C, Q>(n: Node<Q>, entries: Seq<Entry<C, Q>>) -> bool
    decreases n,
{
    &&& match n.inner {
        Inner::Component(id) => id.id < entries.len() && entries[id.id as int].tree is Some,
        Inner::Block(_) => true,
    }
    &&& forall|i: int|
        0 <= i < n.props@.len() ==> node_ids_installed(#[trigger] n.props@[i], entries)
}

/// Installedness survives any change that keeps every installed entry
/// installed (appending entries, installing more trees, dispatching).
pub proof fn lemma_node_ids_installed_mono<C, Q>(
    n: Node<Q>,
    e1: Seq<Entry<C, Q>>,
    e2: Seq<Entry<C, Q>>,
)
    requires
        node_ids_installed(n, e1),
        e1.len() <= e2.len(),
        forall|k: int|
            0 <= k < e1.len() && (#[trigger] e1[k]).tree is Some ==> e2[k].tree is Some,
    ensures
        node_ids_installed(n, e2),
    decreases n,
{
    assert forall|i: int| 0 <= i < n.props@.len() implies node_ids_installed(
        #[trigger] n.props@[i],
        e2,
    ) by {
        lemma_node_ids_installed_mono(n.props@[i], e1, e2);
    }
}

/// A tree whose identities all lie in a fully installed range is installed.
pub proof fn lemma_node_ids_installed_range<C, Q>(
    n: Node<Q>,
    entries: Seq<Entry<C, Q>>,
    a: nat,
    b: nat,
)
    requires
        node_ids_ge(n, a),
        node_ids_lt(n, b),
        b <= entries.len(),
        forall|i: int| a <= i < b ==> (#[trigger] entries[i]).tree is Some,
    ensures
        node_ids_installed(n, entries),
    decreases n,
{
    assert forall|i: int| 0 <= i < n.props@.len() implies node_ids_installed(
        #[trigger] n.props@[i],
        entries,
    ) by {
        lemma_node_ids_installed_range(n.props@[i], entries, a, b);
    }
}

// ---------------------------------------------------------------------------
// Owner wiring
// ---------------------------------------------------------------------------
/// Every node of the tree is wired to the identity of its owning component.
pub open spec fn node_owner<Q>(n: Node<Q>, owner: Identity) -> bool
    decreases n,
{
    &&& n.owner == owner
    &&& forall|i: int| 0 <= i < n.props@.len() ==> node_owner(#[trigger] n.props@[i], owner)
}

// ---------------------------------------------------------------------------
// Shape preservation
// ---------------------------------------------------------------------------
/// The resolved node mirrors the view description: same reference variant
/// (an inline block is kept as is), same attributes, and children resolved
/// pairwise in order.
pub open spec fn same_shape<C, Q>(h: Html<C, Q>, n: Node<Q>) -> bool
    decreases h,
{
    &&& match h.component {
        ComponentRef::Block(b) => n.inner == Inner::Block(b),
        ComponentRef::Component(_) => n.inner is Component,
    }
    &&& n.attributes@ == attributes_model(h.attributes@)
    &&& n.props@.len() == h.props@.len()
    &&& forall|i: int|
        0 <= i < h.props@.len() ==> same_shape(h.props@[i], #[trigger] n.props@[i])
}

// ---------------------------------------------------------------------------
// Resolution, as a relation
// ---------------------------------------------------------------------------
/// The node tree is the resolution of the view-description model against the
/// registry contents, with every identity at least `lo`: blocks are kept
/// verbatim, attributes and child order are preserved, and a component
/// reference resolves to an identity whose entry stores exactly that
/// component together with the resolved tree of the component's own view.
/// Identities grow strictly along each step into a stored tree, which bounds
/// the recursion by the registry suffix above `lo`.
pub open spec fn resolved<C: Component>(
    entries: Seq<Entry<C, C::Qry>>,
    h: HtmlModel<C, C::Qry>,
    n: Node<C::Qry>,
    lo: nat,
) -> bool
    decreases entries.len() - lo, h,
{
    &&& n.attributes@ == h.attributes
    &&& n.props@.len() == h.children.len()
    &&& forall|i: int|
        0 <= i < h.children.len() ==> resolved(entries, h.children[i], #[trigger] n.props@[i], lo)
    &&& match h.reference {
        RefModel::Block(bm) => n.inner matches Inner::Block(bl) && block_model(bl) == bm,
        RefModel::Component(c) => match n.inner {
            Inner::Component(id) => lo <= id.id && id.id < entries.len()
                && entries[id.id as int].component == c && (entries[id.id as int].tree matches Option::Some(t)
                && t.identity == id && resolved(entries, c.view_model(), t.node, (id.id + 1) as nat)),
            Inner::Block(_) => false,
        },
    }
}

/// How many components resolving a view description registers: one for each
/// component reference in the view, plus everything mounted by that
/// component's own view, transitively.  The depth law bounds the recursion.
pub open spec fn mount_count<C: Component>(h: HtmlModel<C, C::Qry>) -> nat
    decreases model_depth(h), h,
    via mount_count_dec::<C>
{
    children_mount_count(h.children) + match h.reference {
        RefModel::Component(c) => 1 + mount_count(c.view_model()),
        RefModel::Block(_) => 0,
    }
}

/// The total [`mount_count`] of a sequence of view-description models.
pub open spec fn children_mount_count<C: Component>(s: Seq<HtmlModel<C, C::Qry>>) -> nat
    decreases children_model_depth(s), s,
    via children_mount_count_dec::<C>
{
    if s.len() == 0 {
        0
    } else {
        mount_count(s[0]) + children_mount_count(s.drop_first())
    }
}

#[via_fn]
proof fn mount_count_dec<C: Component>(h: HtmlModel<C, C::Qry>) {
    match h.reference {
        RefModel::Component(c) => {
            C::view_depth_law(c);
        },
        RefModel::Block(_) => {},
    }
}

#[via_fn]
proof fn children_mount_count_dec<C: Component>(s: Seq<HtmlModel<C, C::Qry>>) {
}

/// Appending a view model adds its mount count.
pub proof fn lemma_children_mount_count_push<C: Component>(
    s: Seq<HtmlModel<C, C::Qry>>,
    h: HtmlModel<C, C::Qry>,
)
    ensures
        children_mount_count(s.push(h)) == children_mount_count(s) + mount_count(h),
    decreases s.len(),
{
    reveal_with_fuel(children_mount_count, 2);
    if s.len() == 0 {
        assert(s.push(h)[0] == h);
        assert(s.push(h).drop_first() =~= Seq::<HtmlModel<C, C::Qry>>::empty());
    } else {
        assert(s.push(h)[0] == s[0]);
        assert(s.push(h).drop_first() =~= s.drop_first().push(h));
        lemma_children_mount_count_push(s.drop_first(), h);
    }
}

/// A lower identity bound of a resolution can be weakened.
pub proof fn lemma_resolved_mono<C: Component>(
    entries: Seq<Entry<C, C::Qry>>,
    h: HtmlModel<C, C::Qry>,
    n: Node<C::Qry>,
    a: nat,
    b: nat,
)
    requires
        resolved(entries, h, n, a),
        b <= a,
    ensures
        resolved(entries, h, n, b),
    decreases entries.len() - a, h,
{
    assert forall|i: int| 0 <= i < h.children.len() implies resolved(
        entries,
        h.children[i],
        #[trigger] n.props@[i],
        b,
    ) by {
        lemma_resolved_mono(entries, h.children[i], n.props@[i], a, b);
    }
}

/// A resolution is untouched by appending entries: it only reads entries the
/// view already resolves to.
pub proof fn lemma_resolved_prefix<C: Component>(
    e1: Seq<Entry<C, C::Qry>>,
    e2: Seq<Entry<C, C::Qry>>,
    h: HtmlModel<C, C::Qry>,
    n: Node<C::Qry>,
    lo: nat,
)
    requires
        resolved(e1, h, n, lo),
        e1.len() <= e2.len(),
        forall|i: int| 0 <= i < e1.len() ==> e2[i] == e1[i],
    ensures
        resolved(e2, h, n, lo),
    decreases e1.len() - lo, h,
{
    assert forall|i: int| 0 <= i < h.children.len() implies resolved(
        e2,
        h.children[i],
        #[trigger] n.props@[i],
        lo,
    ) by {
        lemma_resolved_prefix(e1, e2, h.children[i], n.props@[i], lo);
    }
    match h.reference {
        RefModel::Block(_) => {},
        RefModel::Component(c) => {
            let id = n.inner->Component_0;
            let t = e1[id.id as int].tree->Some_0;
            lemma_resolved_prefix(e1, e2, c.view_model(), t.node, (id.id + 1) as nat);
        },
    }
}

/// A resolution is untouched by a change to one entry below its identity
/// floor: every identity it resolves to lies at or above the floor.
pub proof fn lemma_resolved_update_below<C: Component>(
    e1: Seq<Entry<C, C::Qry>>,
    e2: Seq<Entry<C, C::Qry>>,
    k: int,
    h: HtmlModel<C, C::Qry>,
    n: Node<C::Qry>,
    lo: nat,
)
    requires
        resolved(e1, h, n, lo),
        e1.len() == e2.len(),
        k < lo,
        forall|j: int| 0 <= j < e1.len() && j != k ==> e2[j] == e1[j],
    ensures
        resolved(e2, h, n, lo),
    decreases e1.len() - lo, h,
{
    assert forall|i: int| 0 <= i < h.children.len() implies resolved(
        e2,
        h.children[i],
        #[trigger] n.props@[i],
        lo,
    ) by {
        lemma_resolved_update_below(e1, e2, k, h.children[i], n.props@[i], lo);
    }
    match h.reference {
        RefModel::Block(_) => {},
        RefModel::Component(c) => {
            let id = n.inner->Component_0;
            let t = e1[id.id as int].tree->Some_0;
            lemma_resolved_update_below(e1, e2, k, c.view_model(), t.node, (id.id + 1) as nat);
        },
    }
}

// ---------------------------------------------------------------------------
// Structural height of node trees (a termination measure for rendering)
// ---------------------------------------------------------------------------
/// The structural height of a node, at least 1.
pub open spec fn node_height<Q>(n: Node<Q>) -> nat
    decreases n,
{
    1 + children_node_height(n.props@)
}

/// The largest height among a sequence of nodes.
pub open spec fn children_node_height<Q>(s: Seq<Node<Q>>) -> nat
    decreases s,
{
    if s.len() == 0 {
        0
    } else {
        nat_max(node_height(s[0]), children_node_height(s.drop_first()))
    }
}

/// Every node's height is bounded by its sequence's.
pub proof fn lemma_children_node_height<Q>(s: Seq<Node<Q>>, i: int)
    requires
        0 <= i < s.len(),
    ensures
        node_height(s[i]) <= children_node_height(s),
    decreases s.len(),
{
    if i == 0 {
    } else {
        lemma_children_node_height(s.drop_first(), i - 1);
    }
}

// ---------------------------------------------------------------------------
// Rendering, as a mathematical function
// ---------------------------------------------------------------------------
/// The concatenation of a sequence of texts, in order.
pub open spec fn concat_texts(ps: Seq<Seq<char>>) -> Seq<char>
    decreases ps.len(),
{
    if ps.len() == 0 {
        Seq::empty()
    } else {
        ps[0] + concat_texts(ps.drop_first())
    }
}

/// Appending a text appends it to the concatenation.
pub proof fn lemma_concat_texts_push(ps: Seq<Seq<char>>, t: Seq<char>)
    ensures
        concat_texts(ps.push(t)) == concat_texts(ps) + t,
    decreases ps.len(),
{
    if ps.len() == 0 {
        reveal_with_fuel(concat_texts, 2);
        assert(ps.push(t).drop_first() =~= Seq::<Seq<char>>::empty());
        assert(concat_texts(ps.push(t)) =~= concat_texts(ps) + t);
    } else {
        assert(ps.push(t).drop_first() =~= ps.drop_first().push(t));
        lemma_concat_texts_push(ps.drop_first(), t);
        assert(concat_texts(ps.push(t)) =~= concat_texts(ps) + t);
    }
}

/// The text of one block segment, or `None` for a query the owning
/// component does not recognize.
pub open spec fn segment_text<C: Component>(
    seg: Segment<C::Qry>,
    ctx: ContextModel<C>,
) -> Option<Seq<char>> {
    match seg {
        Segment::Lit(s) => Option::Some(s@),
        Segment::Extract(q) => ctx.component.extract_spec(q),
        Segment::Children => Option::Some(concat_texts(ctx.props)),
        Segment::AttrText => Option::Some(attributes_text(ctx.attributes)),
    }
}

/// The text of a sequence of block segments, in order; an unrecognized
/// query anywhere makes the whole block fail.
pub open spec fn segments_text<C: Component>(
    segs: Seq<Segment<C::Qry>>,
    ctx: ContextModel<C>,
) -> Result<Seq<char>, RenderError>
    decreases segs.len(),
{
    if segs.len() == 0 {
        Result::Ok(Seq::empty())
    } else {
        match segment_text(segs[0], ctx) {
            Option::Some(t) => match segments_text(segs.drop_first(), ctx) {
                Result::Ok(r) => Result::Ok(t + r),
                Result::Err(e) => Result::Err(e),
            },
            Option::None => Result::Err(RenderError::UnknownQuery),
        }
    }
}

/// The text of an inline block evaluated against a context.
pub open spec fn block_text<C: Component>(b: Block<C::Qry>, ctx: ContextModel<C>) -> Result<
    Seq<char>,
    RenderError,
> {
    segments_text(b.segments@, ctx)
}

/// Appending a segment appends its text, or fails if it is unrecognized.
pub proof fn lemma_segments_text_push<C: Component>(
    segs: Seq<Segment<C::Qry>>,
    x: Segment<C::Qry>,
    ctx: ContextModel<C>,
)
    ensures
        segments_text(segs.push(x), ctx) == match segments_text(segs, ctx) {
            Result::Ok(t) => match segment_text(x, ctx) {
                Option::Some(u) => Result::<Seq<char>, RenderError>::Ok(t + u),
                Option::None => Result::Err(RenderError::UnknownQuery),
            },
            Result::Err(e) => Result::Err(e),
        },
    decreases segs.len(),
{
    reveal_with_fuel(segments_text, 2);
    if segs.len() == 0 {
        assert(segs.push(x)[0] == x);
        assert(segs.push(x).drop_first() =~= Seq::<Segment<C::Qry>>::empty());
        if segment_text(x, ctx) is Some {
            let u = segment_text(x, ctx)->Some_0;
            assert(Seq::empty() + u =~= u);
            assert(u + Seq::empty() =~= u);
        }
    } else {
        assert(segs.push(x)[0] == segs[0]);
        assert(segs.push(x).drop_first() =~= segs.drop_first().push(x));
        lemma_segments_text_push(segs.drop_first(), x, ctx);
        if segments_text(segs, ctx) is Ok && segment_text(x, ctx) is Some {
            let t0 = segment_text(segs[0], ctx)->Some_0;
            let r = segments_text(segs.drop_first(), ctx)->Ok_0;
            let u = segment_text(x, ctx)->Some_0;
            assert(t0 + (r + u) =~= (t0 + r) + u);
        }
    }
}

/// A recognized prefix followed by an unrecognized segment fails the whole
/// sequence.
pub proof fn lemma_segments_text_err<C: Component>(
    segs: Seq<Segment<C::Qry>>,
    i: int,
    ctx: ContextModel<C>,
)
    requires
        0 <= i < segs.len(),
        segments_text(segs.take(i), ctx) is Ok,
        segment_text(segs[i], ctx) is None,
    ensures
        segments_text(segs, ctx) == Result::<Seq<char>, RenderError>::Err(
            RenderError::UnknownQuery,
        ),
    decreases i,
{
    if i == 0 {
        assert(segs.len() > 0);
    } else {
        assert(segs.take(i)[0] == segs[0]);
        assert(segs.take(i).drop_first() =~= segs.drop_first().take(i - 1));
        assert(segs.drop_first()[i - 1] == segs[i]);
        lemma_segments_text_err(segs.drop_first(), i - 1, ctx);
    }
}

/// The markup text of a node rendered against registry contents and a
/// context.  `lo` is a lower bound on the identities the node may refer to;
/// each step into a registered component's own tree raises the bound, which
/// is what makes rendering terminate on a well-formed registry.
pub open spec fn node_text<C: Component>(
    reg: Seq<Entry<C, C::Qry>>,
    n: Node<C::Qry>,
    ctx: ContextModel<C>,
    lo: nat,
) -> Result<Seq<char>, RenderError>
    decreases reg.len() - lo, node_height(n), 1int,
{
    match n.inner {
        Inner::Block(b) => block_text(b, ctx),
        Inner::Component(id) => if id.id < lo || reg.len() <= id.id {
            Result::Err(RenderError::NotFound(id))
        } else {
            match children_texts(reg, n.props@, ctx, lo) {
                Result::Err(e) => Result::Err(e),
                Result::Ok(ps) => match reg[id.id as int].tree {
                    Option::None => Result::Err(RenderError::NotFound(id)),
                    Option::Some(t) => node_text(
                        reg,
                        t.node,
                        ContextModel {
                            component: reg[id.id as int].component,
                            props: ps,
                            attributes: n.attributes@,
                        },
                        (id.id + 1) as nat,
                    ),
                },
            }
        },
    }
}

/// The texts of a sequence of child nodes, in order; the first failure
/// fails the whole sequence.
pub open spec fn children_texts<C: Component>(
    reg: Seq<Entry<C, C::Qry>>,
    ns: Seq<Node<C::Qry>>,
    ctx: ContextModel<C>,
    lo: nat,
) -> Result<Seq<Seq<char>>, RenderError>
    decreases reg.len() - lo, children_node_height(ns), ns.len() as int + 2,
{
    if ns.len() == 0 {
        Result::Ok(Seq::empty())
    } else {
        match node_text(reg, ns[0], ctx, lo) {
            Result::Err(e) => Result::Err(e),
            Result::Ok(t) => match children_texts(reg, ns.drop_first(), ctx, lo) {
                Result::Err(e) => Result::Err(e),
                Result::Ok(r) => Result::Ok(seq![t] + r),
            },
        }
    }
}

/// Appending a child appends its text, or fails if the child fails.
pub proof fn lemma_children_texts_push<C: Component>(
    reg: Seq<Entry<C, C::Qry>>,
    ns: Seq<Node<C::Qry>>,
    n: Node<C::Qry>,
    ctx: ContextModel<C>,
    lo: nat,
)
    ensures
        children_texts(reg, ns.push(n), ctx, lo) == match children_texts(reg, ns, ctx, lo) {
            Result::Ok(ps) => match node_text(reg, n, ctx, lo) {
                Result::Ok(t) => Result::<Seq<Seq<char>>, RenderError>::Ok(ps.push(t)),
                Result::Err(e) => Result::Err(e),
            },
            Result::Err(e) => Result::Err(e),
        },
    decreases ns.len(),
{
    reveal_with_fuel(children_texts, 2);
    if ns.len() == 0 {
        assert(ns.push(n)[0] == n);
        assert(ns.push(n).drop_first() =~= Seq::<Node<C::Qry>>::empty());
        if node_text(reg, n, ctx, lo) is Ok {
            let t = node_text(reg, n, ctx, lo)->Ok_0;
            assert(seq![t] + Seq::<Seq<char>>::empty() =~= Seq::<Seq<char>>::empty().push(t));
        }
    } else {
        assert(ns.push(n)[0] == ns[0]);
        assert(ns.push(n).drop_first() =~= ns.drop_first().push(n));
        lemma_children_texts_push(reg, ns.drop_first(), n, ctx, lo);
        if children_texts(reg, ns, ctx, lo) is Ok && node_text(reg, n, ctx, lo) is Ok {
            let t0 = node_text(reg, ns[0], ctx, lo)->Ok_0;
            let r = children_texts(reg, ns.drop_first(), ctx, lo)->Ok_0;
            let t = node_text(reg, n, ctx, lo)->Ok_0;
            assert(seq![t0] + r.push(t) =~= (seq![t0] + r).push(t));
        }
    }
}

/// A rendered prefix followed by a failing child fails the whole sequence
/// with that child's error.
pub proof fn lemma_children_texts_err<C: Component>(
    reg: Seq<Entry<C, C::Qry>>,
    ns: Seq<Node<C::Qry>>,
    i: int,
    ctx: ContextModel<C>,
    lo: nat,
    e: RenderError,
)
    requires
        0 <= i < ns.len(),
        children_texts(reg, ns.take(i), ctx, lo) is Ok,
        node_text(reg, ns[i], ctx, lo) == Result::<Seq<char>, RenderError>::Err(e),
    ensures
        children_texts(reg, ns, ctx, lo) == Result::<Seq<Seq<char>>, RenderError>::Err(e),
    decreases i,
{
    if i == 0 {
        assert(ns.len() > 0);
    } else {
        assert(ns.take(i)[0] == ns[0]);
        assert(ns.take(i).drop_first() =~= ns.drop_first().take(i - 1));
        assert(ns.drop_first()[i - 1] == ns[i]);
        lemma_children_texts_err(reg, ns.drop_first(), i - 1, ctx, lo, e);
    }
}

/// The markup text produced by rendering an `Inner` with already-rendered
/// child markup and resolved attributes, against a context.
pub open spec fn inner_text<C: Component>(
    reg: Seq<Entry<C, C::Qry>>,
    inner: Inner<C::Qry>,
    props: Seq<Seq<char>>,
    attrs: Seq<AttrModel>,
    ctx: ContextModel<C>,
) -> Result<Seq<char>, RenderError> {
    match inner {
        Inner::Block(b) => block_text(b, ctx),
        Inner::Component(id) => if reg.len() <= id.id {
            Result::Err(RenderError::NotFound(id))
        } else {
            match reg[id.id as int].tree {
                Option::None => Result::Err(RenderError::NotFound(id)),
                Option::Some(t) => node_text(
                    reg,
                    t.node,
                    ContextModel {
                        component: reg[id.id as int].component,
                        props: props,
                        attributes: attrs,
                    },
                    (id.id + 1) as nat,
                ),
            }
        },
    }
}

/// The markup text of a stored tree rendered with given child markup and
/// attributes: the owning component is looked up under the tree's own
/// identity to seed the context.
pub open spec fn tree_text<C: Component>(
    reg: Seq<Entry<C, C::Qry>>,
    t: Tree<C::Qry>,
    props: Seq<Seq<char>>,
    attrs: Seq<AttrModel>,
) -> Result<Seq<char>, RenderError> {
    if reg.len() <= t.identity.id {
        Result::Err(RenderError::NotFound(t.identity))
    } else {
        node_text(
            reg,
            t.node,
            ContextModel {
                component: reg[t.identity.id as int].component,
                props: props,
                attributes: attrs,
            },
            0,
        )
    }
}

/// The text of a string-valued render result.
pub open spec fn result_text(r: Result<String, RenderError>) -> Result<Seq<char>, RenderError> {
    match r {
        Result::Ok(s) => Result::Ok(s@),
        Result::Err(e) => Result::Err(e),
    }
}

/// The texts of a props-valued render result.
pub open spec fn result_props(r: Result<Props, RenderError>) -> Result<
    Seq<Seq<char>>,
    RenderError,
> {
    match r {
        Result::Ok(p) => Result::Ok(p@),
        Result::Err(e) => Result::Err(e),
    }
}

// ---------------------------------------------------------------------------
// Attributes, props and contexts
// ---------------------------------------------------------------------------
impl Attributes {
    /// Wraps an attribute list.
    pub fn new(inner: Vec<Attribute>) -> (a: Attributes)
        ensures
            a@ == attributes_model(inner@),
    {
        Attributes { inner }
    }

    /// Renders every attribute, in order, and concatenates the results.
    pub fn render(&self) -> (r: String)
        ensures
            r@ == attributes_text(self@),
    {
        let mut out = String::new();
        let mut i: usize = 0;
        while i < self.inner.len()
            invariant
                i <= self.inner.len(),
                out@ == attributes_text(self@.take(i as int)),
            decreases self.inner.len() - i,
        {
            let piece = self.inner[i].render();
            out.append(piece.as_str());
            proof {
                lemma_attributes_text_push(self@.take(i as int), self@[i as int]);
                assert(self@.take(i as int).push(self@[i as int]) =~= self@.take(i + 1));
            }
            i = i + 1;
        }
        proof {
            assert(self@.take(self.inner@.len() as int) =~= self@);
        }
        out
    }

    /// An owned copy of this attribute list, equal in model.
    pub fn duplicate(&self) -> (a: Attributes)
        ensures
            a@ == self@,
    {
        let mut inner: Vec<Attribute> = Vec::new();
        let mut i: usize = 0;
        while i < self.inner.len()
            invariant
                i <= self.inner.len(),
                inner@.len() == i,
                forall|k: int| 0 <= k < i ==> (#[trigger] inner@[k])@ == self.inner@[k]@,
            decreases self.inner.len() - i,
        {
            inner.push(self.inner[i].duplicate());
            i = i + 1;
        }
        let a = Attributes { inner };
        proof {
            assert(a@ =~= self@);
        }
        a
    }
}

impl Props {
    /// Rendered child markup with no children at all.
    pub fn empty() -> (p: Props)
        ensures
            p@ == Seq::<Seq<char>>::empty(),
    {
        let p = Props { inner: Vec::new() };
        proof {
            assert(p@ =~= Seq::<Seq<char>>::empty());
        }
        p
    }

    /// Concatenates the rendered child markup, in child order.
    pub fn render(&self) -> (r: String)
        ensures
            r@ == concat_texts(self@),
    {
        let mut out = String::new();
        let mut i: usize = 0;
        while i < self.inner.len()
            invariant
                i <= self.inner.len(),
                out@ == concat_texts(self@.take(i as int)),
            decreases self.inner.len() - i,
        {
            out.append(self.inner[i].as_str());
            proof {
                lemma_concat_texts_push(self@.take(i as int), self@[i as int]);
                assert(self@[i as int] == self.inner@[i as int]@);
                assert(self@.take(i as int).push(self@[i as int]) =~= self@.take(i + 1));
            }
            i = i + 1;
        }
        proof {
            assert(self@.take(self.inner@.len() as int) =~= self@);
        }
        out
    }
}

impl<C: Component> Context<C> {
    /// Bundles an owning component, rendered child markup and an attribute
    /// set into a render context.
    pub fn new(component: C, props: Props, attributes: Attributes) -> (ctx: Context<C>)
        ensures
            ctx@ == (ContextModel { component, props: props@, attributes: attributes@ }),
    {
        let ctx = Context { component, props, attributes };
        proof {
            assert(ctx@ =~= ContextModel { component, props: props@, attributes: attributes@ });
        }
        ctx
    }

    /// Forwards an extraction query to the owning component; `None` exactly
    /// when the component does not recognize the query, which callers treat
    /// as a fatal programmer error.
    pub fn extract(&self, query: &C::Qry) -> (r: Option<String>)
        ensures
            match r {
                Option::Some(s) => self@.component.extract_spec(*query) == Option::Some(s@),
                Option::None => self@.component.extract_spec(*query) is None,
            },
    {
        self.component.extract(query)
    }
}

// ---------------------------------------------------------------------------
// Rendering, executable
// ---------------------------------------------------------------------------
/// Renders an inline block against a context by concatenating its segment
/// texts; fails on the first unrecognized query.
fn render_block<C: Component>(b: &Block<C::Qry>, ctx: &Context<C>) -> (r: Result<
    String,
    RenderError,
>)
    ensures
        result_text(r) == block_text(*b, ctx@),
{
    let mut out = String::new();
    let mut i: usize = 0;
    while i < b.segments.len()
        invariant
            i <= b.segments.len(),
            segments_text(b.segments@.take(i as int), ctx@) == Result::<
                Seq<char>,
                RenderError,
            >::Ok(out@),
        decreases b.segments.len() - i,
    {
        let ghost prefix = b.segments@.take(i as int);
        match &b.segments[i] {
            Segment::Lit(s) => {
                out.append(s.as_str());
            },
            Segment::Extract(q) => {
                match ctx.extract(q) {
                    Option::Some(s) => {
                        out.append(s.as_str());
                    },
                    Option::None => {
                        proof {
                            lemma_segments_text_err(b.segments@, i as int, ctx@);
                        }
                        return Result::Err(RenderError::UnknownQuery);
                    },
                }
            },
            Segment::Children => {
                let s = ctx.props.render();
                out.append(s.as_str());
            },
            Segment::AttrText => {
                let s = ctx.attributes.render();
                out.append(s.as_str());
            },
        }
        proof {
            lemma_segments_text_push(prefix, b.segments@[i as int], ctx@);
            assert(prefix.push(b.segments@[i as int]) =~= b.segments@.take(i + 1));
        }
        i = i + 1;
    }
    proof {
        assert(b.segments@.take(b.segments@.len() as int) =~= b.segments@);
    }
    Result::Ok(out)
}

/// Renders one node: an inline block is evaluated against the context; a
/// component node renders its children, then steps into the registered
/// component's own tree under a context seeded with that component, the
/// rendered child markup and this node's attributes.
fn render_node_at<C: Component>(
    n: &Node<C::Qry>,
    ctx: &Context<C>,
    reg: &Registry<C, C::Qry>,
    Ghost(lo): Ghost<nat>,
) -> (r: Result<String, RenderError>)
    requires
        registry_wf(reg@),
        node_ids_ge(*n, lo),
    ensures
        result_text(r) == node_text(reg@, *n, ctx@, lo),
    decreases reg@.len() - lo, node_height(*n), 1int,
{
    match &n.inner {
        Inner::Block(b) => render_block(b, ctx),
        Inner::Component(id) => {
            if reg.len() <= id.id {
                return Result::Err(RenderError::NotFound(*id));
            }
            let props = match render_children_at(&n.props, ctx, reg, Ghost(lo)) {
                Result::Ok(p) => p,
                Result::Err(e) => {
                    return Result::Err(e);
                },
            };
            let entry = reg.lookup(*id).unwrap();
            match &entry.tree {
                Option::None => Result::Err(RenderError::NotFound(*id)),
                Option::Some(t) => {
                    let comp = entry.component.snapshot();
                    let attrs = n.attributes.duplicate();
                    let ctx2 = Context::new(comp, props, attrs);
                    proof {
                        assert(entry_wf(reg@, id.id as int));
                        assert(ctx2@ =~= ContextModel {
                            component: reg@[id.id as int].component,
                            props: children_texts(reg@, n.props@, ctx@, lo)->Ok_0,
                            attributes: n.attributes@,
                        });
                    }
                    render_node_at(&t.node, &ctx2, reg, Ghost((id.id + 1) as nat))
                },
            }
        },
    }
}

/// Renders a list of child nodes against one context, in order; the first
/// failure fails the whole list.
fn render_children_at<C: Component>(
    nodes: &Vec<Node<C::Qry>>,
    ctx: &Context<C>,
    reg: &Registry<C, C::Qry>,
    Ghost(lo): Ghost<nat>,
) -> (r: Result<Props, RenderError>)
    requires
        registry_wf(reg@),
        forall|k: int| 0 <= k < nodes@.len() ==> node_ids_ge(#[trigger] nodes@[k], lo),
    ensures
        result_props(r) == children_texts(reg@, nodes@, ctx@, lo),
    decreases reg@.len() - lo, children_node_height(nodes@), 2int,
{
    let mut out: Vec<String> = Vec::new();
    let mut i: usize = 0;
    proof {
        assert(nodes@.take(0) =~= Seq::<Node<C::Qry>>::empty());
        assert(out.deep_view() =~= Seq::<Seq<char>>::empty());
    }
    while i < nodes.len()
        invariant
            i <= nodes.len(),
            registry_wf(reg@),
            forall|k: int| 0 <= k < nodes@.len() ==> node_ids_ge(#[trigger] nodes@[k], lo),
            children_texts(reg@, nodes@.take(i as int), ctx@, lo) == Result::<
                Seq<Seq<char>>,
                RenderError,
            >::Ok(out.deep_view()),
        decreases nodes.len() - i,
    {
        let ghost prefix = nodes@.take(i as int);
        proof {
            lemma_children_node_height(nodes@, i as int);
        }
        match render_node_at(&nodes[i], ctx, reg, Ghost(lo)) {
            Result::Ok(s) => {
                let ghost dv = out.deep_view();
                let ghost sv = s@;
                out.push(s);
                proof {
                    lemma_children_texts_push(reg@, prefix, nodes@[i as int], ctx@, lo);
                    assert(prefix.push(nodes@[i as int]) =~= nodes@.take(i + 1));
                    assert(out.deep_view() =~= dv.push(sv));
                }
            },
            Result::Err(e) => {
                proof {
                    lemma_children_texts_err(reg@, nodes@, i as int, ctx@, lo, e);
                }
                return Result::Err(e);
            },
        }
        i = i + 1;
    }
    proof {
        assert(nodes@.take(nodes@.len() as int) =~= nodes@);
    }
    Result::Ok(Props { inner: out })
}

// ---------------------------------------------------------------------------
// Tree resolution
// ---------------------------------------------------------------------------
impl<Q> Inner<Q> {
    /// Resolves a reference variant.  An inline block is wrapped as is; a
    /// component is asked for its own view, registered (obtaining a fresh
    /// identity), and its view is resolved and installed beside it for later
    /// re-render.  The registry grows append-only: earlier entries are
    /// untouched and every entry added here is fully installed.
    pub fn new<C: Component<Qry = Q>>(
        component: ComponentRef<C, Q>,
        reg: &mut Registry<C, Q>,
    ) -> (inner: Inner<Q>)
        requires
            registry_wf(old(reg)@),
        ensures
            registry_wf(final(reg)@),
            old(reg)@.len() <= final(reg)@.len(),
            forall|i: int| 0 <= i < old(reg)@.len() ==> final(reg)@[i] == old(reg)@[i],
            forall|i: int|
                old(reg)@.len() <= i < final(reg)@.len() ==> (#[trigger] final(reg)@[i]).tree is Some,
            match inner {
                Inner::Block(b) => component == ComponentRef::<C, Q>::Block(b) && final(reg)@
                    == old(reg)@,
                Inner::Component(id) => component is Component && id.id == old(reg)@.len()
                    && id.id < final(reg)@.len() && final(reg)@.len() == old(reg)@.len() + 1
                    + mount_count((component->Component_0).view_model())
                    && final(reg)@[id.id as int].component
                    == component->Component_0 && (final(reg)@[id.id as int].tree matches Option::Some(t)
                    && t.identity == id && resolved(
                    final(reg)@,
                    (component->Component_0).view_model(),
                    t.node,
                    (id.id + 1) as nat,
                )),
            },
        decreases component_ref_depth(component), 0int, 0int,
    {
        match component {
            ComponentRef::Block(b) => Inner::Block(b),
            ComponentRef::Component(c) => {
                let h = c.view();
                let id = reg.register(c);
                proof {
                    let pushed = reg@;
                    assert forall|j: int| 0 <= j < pushed.len() implies #[trigger] entry_wf(
                        pushed,
                        j,
                    ) by {
                        if j < pushed.len() - 1 {
                            assert(entry_wf(old(reg)@, j));
                            assert(pushed[j] == old(reg)@[j]);
                            if pushed[j].tree is Some {
                                lemma_node_ids_installed_mono(
                                    pushed[j].tree->Some_0.node,
                                    old(reg)@,
                                    pushed,
                                );
                            }
                        }
                    }
                }
                let ghost mid = reg@;
                let t = Tree::new(h, id, reg);
                proof {
                    assert(node_ids_ge(t.node, mid.len() as nat));
                    assert(mid.len() == id.id + 1);
                }
                let ghost before_install = reg@;
                reg.install(id, t);
                proof {
                    assert forall|j: int| 0 <= j < reg@.len() implies #[trigger] entry_wf(
                        reg@,
                        j,
                    ) by {
                        if j == id.id as int {
                            assert(reg@[j].tree == Option::Some(t));
                            lemma_node_ids_installed_mono(t.node, before_install, reg@);
                        } else {
                            assert(entry_wf(before_install, j));
                            assert(reg@[j] == before_install[j]);
                            if reg@[j].tree is Some {
                                lemma_node_ids_installed_mono(
                                    reg@[j].tree->Some_0.node,
                                    before_install,
                                    reg@,
                                );
                            }
                        }
                    }
                    lemma_resolved_update_below(
                        before_install,
                        reg@,
                        id.id as int,
                        c.view_model(),
                        t.node,
                        (id.id + 1) as nat,
                    );
                }
                Inner::Component(id)
            },
        }
    }
}

impl<Q> Node<Q> {
    /// Resolves a view description into a node, registering every embedded
    /// component; `identity` is the identity of the owning component, which
    /// each node of its tree is wired to.  The resolved node has the same
    /// shape as the view description: children in the same order, none
    /// added, none dropped, and it refers only to identities registered
    /// during this resolution, all of which are fully installed.
    pub fn new<C: Component<Qry = Q>>(
        view: Html<C, Q>,
        identity: Identity,
        reg: &mut Registry<C, Q>,
    ) -> (n: Node<Q>)
        requires
            registry_wf(old(reg)@),
        ensures
            registry_wf(final(reg)@),
            old(reg)@.len() <= final(reg)@.len(),
            forall|i: int| 0 <= i < old(reg)@.len() ==> final(reg)@[i] == old(reg)@[i],
            forall|i: int|
                old(reg)@.len() <= i < final(reg)@.len() ==> (#[trigger] final(reg)@[i]).tree is Some,
            final(reg)@.len() == old(reg)@.len() + mount_count(view@),
            node_ids_ge(n, old(reg)@.len() as nat),
            node_ids_lt(n, final(reg)@.len() as nat),
            node_ids_installed(n, final(reg)@),
            same_shape(view, n),
            resolved(final(reg)@, view@, n, old(reg)@.len() as nat),
            node_owner(n, identity),
        decreases component_depth(view), html_height(view), 1int,
    {
        let ghost gview = view;
        let Html { component, attributes, mut props } = view;
        let mut children: Vec<Node<Q>> = Vec::new();
        proof {
            assert(props@ =~= gview.props@.skip(0));
            assert(htmls_model(gview.props@).take(0) =~= Seq::<HtmlModel<C, Q>>::empty());
        }
        while props.len() > 0
            invariant
                gview == view,
                children@.len() + props@.len() == gview.props@.len(),
                props@ == gview.props@.skip(children@.len() as int),
                registry_wf(reg@),
                old(reg)@.len() <= reg@.len(),
                forall|i: int| 0 <= i < old(reg)@.len() ==> reg@[i] == old(reg)@[i],
                forall|i: int|
                    old(reg)@.len() <= i < reg@.len() ==> (#[trigger] reg@[i]).tree is Some,
                reg@.len() == old(reg)@.len() + children_mount_count(
                    htmls_model(gview.props@).take(children@.len() as int),
                ),
                forall|k: int|
                    0 <= k < children@.len() ==> node_ids_ge(
                        #[trigger] children@[k],
                        old(reg)@.len() as nat,
                    ) && node_ids_lt(children@[k], reg@.len() as nat) && same_shape(
                        gview.props@[k],
                        children@[k],
                    ) && resolved(
                        reg@,
                        html_model(gview.props@[k]),
                        children@[k],
                        old(reg)@.len() as nat,
                    ) && node_owner(children@[k], identity),
            decreases props@.len(),
        {
            let ghost k = children@.len() as int;
            let child_view = props.remove(0);
            proof {
                assert(child_view == gview.props@[k]);
                assert(props@ =~= gview.props@.skip(k + 1));
                lemma_child_measures(gview, k);
                assert(component_depth(child_view) <= component_depth(view));
                assert(html_height(child_view) < html_height(view));
            }
            let ghost pre = reg@;
            let child = Node::new(child_view, identity, reg);
            children.push(child);
            proof {
                lemma_node_ids_ge_mono(child, pre.len() as nat, old(reg)@.len() as nat);
                lemma_htmls_model(gview.props@);
                lemma_children_mount_count_push(
                    htmls_model(gview.props@).take(k),
                    html_model(child_view),
                );
                assert(htmls_model(gview.props@).take(k).push(html_model(child_view))
                    =~= htmls_model(gview.props@).take(k + 1));
                lemma_resolved_mono(
                    reg@,
                    html_model(child_view),
                    child,
                    pre.len() as nat,
                    old(reg)@.len() as nat,
                );
                assert forall|j: int| 0 <= j < children@.len() implies node_ids_ge(
                    #[trigger] children@[j],
                    old(reg)@.len() as nat,
                ) && node_ids_lt(children@[j], reg@.len() as nat) && same_shape(
                    gview.props@[j],
                    children@[j],
                ) && resolved(
                    reg@,
                    html_model(gview.props@[j]),
                    children@[j],
                    old(reg)@.len() as nat,
                ) && node_owner(children@[j], identity) by {
                    if j < children@.len() - 1 {
                        lemma_node_ids_lt_mono(children@[j], pre.len() as nat, reg@.len() as nat);
                        lemma_resolved_prefix(
                            pre,
                            reg@,
                            html_model(gview.props@[j]),
                            children@[j],
                            old(reg)@.len() as nat,
                        );
                    }
                }
            }
        }
        proof {
            assert(component_ref_depth(gview.component) <= component_depth(gview));
        }
        let ghost pre_inner = reg@;
        let inner = Inner::new(component, reg);
        let n = Node { inner, attributes: Attributes::new(attributes), props: children, owner: identity };
        proof {
            assert forall|k: int| 0 <= k < n.props@.len() implies node_ids_ge(
                #[trigger] n.props@[k],
                old(reg)@.len() as nat,
            ) && node_ids_lt(n.props@[k], reg@.len() as nat) && resolved(
                reg@,
                html_model(gview.props@[k]),
                n.props@[k],
                old(reg)@.len() as nat,
            ) by {
                lemma_node_ids_lt_mono(n.props@[k], pre_inner.len() as nat, reg@.len() as nat);
                lemma_resolved_prefix(
                    pre_inner,
                    reg@,
                    html_model(gview.props@[k]),
                    n.props@[k],
                    old(reg)@.len() as nat,
                );
            }
            assert(gview.props@.skip(n.props@.len() as int) =~= Seq::<Html<C, Q>>::empty());
            lemma_htmls_model(gview.props@);
            assert(htmls_model(gview.props@).take(n.props@.len() as int)
                =~= htmls_model(gview.props@));
            assert(htmls_model(gview.props@) == gview@.children);
            assert(reg@.len() == old(reg)@.len() + mount_count(gview@));
            assert(node_ids_ge(n, old(reg)@.len() as nat));
            assert(node_ids_lt(n, reg@.len() as nat));
            assert(same_shape(gview, n));
            assert(node_owner(n, identity));
            lemma_node_ids_installed_range(n, reg@, old(reg)@.len() as nat, reg@.len() as nat);
            lemma_htmls_model(gview.props@);
            assert forall|i: int| 0 <= i < gview@.children.len() implies resolved(
                reg@,
                gview@.children[i],
                #[trigger] n.props@[i],
                old(reg)@.len() as nat,
            ) by {
                assert(gview@.children[i] == html_model(gview.props@[i]));
            }
            assert(resolved(reg@, gview@, n, old(reg)@.len() as nat));
        }
        n
    }

    /// Renders this node against a context and registry contents.  For a
    /// fixed node tree and fixed registry contents the output text is the
    /// pure function [`node_text`], so two successive renders are identical.
    pub fn render<C: Component<Qry = Q>>(
        &self,
        context: Context<C>,
        reg: &Registry<C, Q>,
    ) -> (r: Result<String, RenderError>)
        requires
            registry_wf(reg@),
        ensures
            result_text(r) == node_text(reg@, *self, context@, 0),
    {
        proof {
            lemma_node_ids_ge_zero(*self);
        }
        render_node_at(self, &context, reg, Ghost(0nat))
    }
}

impl Props {
    /// Renders each node against the given context, in order, keeping one
    /// rendered string per node; the first failure fails the whole list.
    pub fn new<C: Component>(
        nodes: Vec<Node<C::Qry>>,
        context: &Context<C>,
        reg: &Registry<C, C::Qry>,
    ) -> (r: Result<Props, RenderError>)
        requires
            registry_wf(reg@),
        ensures
            result_props(r) == children_texts(reg@, nodes@, context@, 0),
    {
        proof {
            assert forall|k: int| 0 <= k < nodes@.len() implies node_ids_ge(
                #[trigger] nodes@[k],
                0,
            ) by {
                lemma_node_ids_ge_zero(nodes@[k]);
            }
        }
        render_children_at(&nodes, context, reg, Ghost(0nat))
    }
}

impl<Q> Inner<Q> {
    /// Renders this reference variant: a block is evaluated against the
    /// context; a component identity is looked up and its stored tree is
    /// rendered with the given child markup and attributes.
    pub fn render<C: Component<Qry = Q>>(
        &self,
        props: Props,
        attributes: Attributes,
        context: Context<C>,
        reg: &Registry<C, Q>,
    ) -> (r: Result<String, RenderError>)
        requires
            registry_wf(reg@),
        ensures
            result_text(r) == inner_text(reg@, *self, props@, attributes@, context@),
    {
        match self {
            Inner::Block(b) => render_block(b, &context),
            Inner::Component(id) => {
                match reg.lookup(*id) {
                    Option::None => Result::Err(RenderError::NotFound(*id)),
                    Option::Some(entry) => match &entry.tree {
                        Option::None => Result::Err(RenderError::NotFound(*id)),
                        Option::Some(t) => {
                            let comp = entry.component.snapshot();
                            let ctx2 = Context::new(comp, props, attributes);
                            proof {
                                assert(entry_wf(reg@, id.id as int));
                                assert(ctx2@ =~= ContextModel {
                                    component: reg@[id.id as int].component,
                                    props: props@,
                                    attributes: attributes@,
                                });
                            }
                            render_node_at(&t.node, &ctx2, reg, Ghost((id.id + 1) as nat))
                        },
                    },
                }
            },
        }
    }
}

impl<Q> Tree<Q> {
    /// Resolves a view description into a tree owned by `identity`: the
    /// resolved node tree together with that identity, so a later render can
    /// look the owning component up again.
    pub fn new<C: Component<Qry = Q>>(
        view: Html<C, Q>,
        identity: Identity,
        reg: &mut Registry<C, Q>,
    ) -> (t: Tree<Q>)
        requires
            registry_wf(old(reg)@),
        ensures
            registry_wf(final(reg)@),
            old(reg)@.len() <= final(reg)@.len(),
            forall|i: int| 0 <= i < old(reg)@.len() ==> final(reg)@[i] == old(reg)@[i],
            forall|i: int|
                old(reg)@.len() <= i < final(reg)@.len() ==> (#[trigger] final(reg)@[i]).tree is Some,
            final(reg)@.len() == old(reg)@.len() + mount_count(view@),
            node_ids_ge(t.node, old(reg)@.len() as nat),
            node_ids_lt(t.node, final(reg)@.len() as nat),
            node_ids_installed(t.node, final(reg)@),
            same_shape(view, t.node),
            resolved(final(reg)@, view@, t.node, old(reg)@.len() as nat),
            node_owner(t.node, identity),
            t.identity == identity,
        decreases component_depth(view), html_height(view), 2int,
    {
        let node = Node::new(view, identity, reg);
        Tree { node, identity }
    }

    /// Renders this tree: the owning component is looked up under the
    /// tree's own identity to seed the context with the component's current
    /// state, the given child markup and attributes.
    pub fn render<C: Component<Qry = Q>>(
        &self,
        props: Props,
        attributes: Attributes,
        reg: &Registry<C, Q>,
    ) -> (r: Result<String, RenderError>)
        requires
            registry_wf(reg@),
        ensures
            result_text(r) == tree_text(reg@, *self, props@, attributes@),
    {
        match reg.lookup(self.identity) {
            Option::None => Result::Err(RenderError::NotFound(self.identity)),
            Option::Some(entry) => {
                let comp = entry.component.snapshot();
                let ctx = Context::new(comp, props, attributes);
                proof {
                    lemma_node_ids_ge_zero(self.node);
                }
                render_node_at(&self.node, &ctx, reg, Ghost(0nat))
            },
        }
    }
}

} // verus!
