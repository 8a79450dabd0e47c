//! Laws of the registry and the render loop.
//!
//! These proof functions state, over the models the executable contracts
//! use, the guarantees the engine is designed around: registration hands out
//! fresh pairwise-distinct identities that resolve to exactly what was
//! stored, events apply strictly in order, and an event that does not change
//! a component's state does not change the rendered output.

use vstd::prelude::*;

use crate::component::Component;
use crate::html::Segment;
use crate::registry::{dispatch_spec, entry_wf, registry_wf, Entry};
use crate::renderer::{renderer_text, RendererModel};
use crate::tree::{
    children_node_height, children_texts, lemma_children_node_height, node_height, node_ids_ge,
    node_ids_installed, node_text, segment_text, segments_text, ContextModel, Inner, Node,
    RenderError,
};

verus! {

/// The registry contents after a sequence of registrations, in order.
/// Matches `Registry::register`, which appends one uninstalled entry and
/// returns its position as the fresh identity.
pub open spec fn register_all<C, Q>(entries: Seq<Entry<C, Q>>, cs: Seq<C>) -> Seq<Entry<C, Q>>
    decreases cs.len(),
{
    if cs.len() == 0 {
        entries
    } else {
        register_all(entries.push(Entry { component: cs[0], tree: Option::None }), cs.drop_first())
    }
}

/// Identity uniqueness.  For any sequence of `register` calls, the identity
/// handed out by the k-th call is `entries.len() + k` — so the identities
/// are pairwise distinct — earlier entries are untouched, and each fresh
/// identity resolves via `lookup` to exactly the component that was passed
/// in.
pub proof fn lemma_register_identities<C, Q>(entries: Seq<Entry<C, Q>>, cs: Seq<C>)
    ensures
        register_all(entries, cs).len() == entries.len() + cs.len(),
        forall|j: int|
            0 <= j < entries.len() ==> register_all(entries, cs)[j] == entries[j],
        forall|k: int|
            0 <= k < cs.len() ==> (#[trigger] register_all(entries, cs)[entries.len() + k]).component
                == cs[k],
    decreases cs.len(),
{
    if cs.len() > 0 {
        let pushed = entries.push(Entry { component: cs[0], tree: Option::None });
        lemma_register_identities(pushed, cs.drop_first());
        assert(register_all(entries, cs) == register_all(pushed, cs.drop_first()));
        assert forall|j: int| 0 <= j < entries.len() implies register_all(entries, cs)[j]
            == entries[j] by {
            assert(register_all(pushed, cs.drop_first())[j] == pushed[j]);
            assert(pushed[j] == entries[j]);
        }
        assert forall|k: int| 0 <= k < cs.len() implies (#[trigger] register_all(
            entries,
            cs,
        )[entries.len() + k]).component == cs[k] by {
            if k == 0 {
                assert(register_all(entries, cs)[entries.len() as int] == pushed[entries.len() as int]);
            } else {
                assert(cs.drop_first()[k - 1] == cs[k]);
                assert(register_all(pushed, cs.drop_first())[pushed.len() + (k - 1)].component
                    == cs.drop_first()[k - 1]);
            }
        }
    }
}

/// Event ordering.  Dispatching message `m1` and then `m2` to the component
/// registered at `i` leaves its state equal to the sequential application
/// of `m1`'s effect and then `m2`'s effect, and touches no other entry.
pub proof fn lemma_event_ordering<C: Component>(
    entries: Seq<Entry<C, C::Qry>>,
    i: int,
    m1: C::Msg,
    m2: C::Msg,
)
    requires
        0 <= i < entries.len(),
    ensures
        dispatch_spec(dispatch_spec(entries, i, m1), i, m2)[i].component
            == entries[i].component.next_spec(m1).next_spec(m2),
        forall|j: int|
            0 <= j < entries.len() && j != i ==> dispatch_spec(
                dispatch_spec(entries, i, m1),
                i,
                m2,
            )[j] == entries[j],
{
}

/// A block can only fail on an unrecognized query.
pub proof fn lemma_segment_errors_are_query_errors<C: Component>(
    segs: Seq<Segment<C::Qry>>,
    ctx: ContextModel<C>,
)
    ensures
        segments_text(segs, ctx) matches Result::Err(e) ==> e == RenderError::UnknownQuery,
    decreases segs.len(),
{
    if segs.len() > 0 {
        if segment_text(segs[0], ctx) is Some {
            lemma_segment_errors_are_query_errors(segs.drop_first(), ctx);
        }
    }
}

/// Rendering never hits `NotFound` on a resolved tree.  Every identity a
/// resolution puts in a node tree resolves in a well-formed registry to a
/// fully installed entry, at render time and at every later one (the
/// registry is append-only), so rendering such a tree can only fail on an
/// unrecognized extraction query.
pub proof fn lemma_render_errors_are_query_errors<C: Component>(
    entries: Seq<Entry<C, C::Qry>>,
    n: Node<C::Qry>,
    ctx: ContextModel<C>,
    lo: nat,
)
    requires
        registry_wf(entries),
        node_ids_ge(n, lo),
        node_ids_installed(n, entries),
    ensures
        node_text(entries, n, ctx, lo) matches Result::Err(e) ==> e
            == RenderError::UnknownQuery,
    decreases entries.len() - lo, node_height(n), 1int,
{
    match n.inner {
        Inner::Block(b) => {
            lemma_segment_errors_are_query_errors(b.segments@, ctx);
        },
        Inner::Component(id) => {
            lemma_children_errors_are_query_errors(entries, n.props@, ctx, lo);
            assert(entry_wf(entries, id.id as int));
            let t = entries[id.id as int].tree->Some_0;
            match children_texts(entries, n.props@, ctx, lo) {
                Result::Err(_) => {},
                Result::Ok(ps) => {
                    lemma_render_errors_are_query_errors(
                        entries,
                        t.node,
                        ContextModel {
                            component: entries[id.id as int].component,
                            props: ps,
                            attributes: n.attributes@,
                        },
                        (id.id + 1) as nat,
                    );
                },
            }
        },
    }
}

/// Rendering a list of resolved children can only fail on an unrecognized
/// query.
proof fn lemma_children_errors_are_query_errors<C: Component>(
    entries: Seq<Entry<C, C::Qry>>,
    ns: Seq<Node<C::Qry>>,
    ctx: ContextModel<C>,
    lo: nat,
)
    requires
        registry_wf(entries),
        forall|k: int| 0 <= k < ns.len() ==> node_ids_ge(#[trigger] ns[k], lo),
        forall|k: int| 0 <= k < ns.len() ==> node_ids_installed(#[trigger] ns[k], entries),
    ensures
        children_texts(entries, ns, ctx, lo) matches Result::Err(e) ==> e
            == RenderError::UnknownQuery,
    decreases entries.len() - lo, children_node_height(ns), ns.len() as int + 2,
{
    if ns.len() > 0 {
        lemma_children_node_height(ns, 0);
        lemma_render_errors_are_query_errors(entries, ns[0], ctx, lo);
        assert forall|k: int| 0 <= k < ns.drop_first().len() implies node_ids_ge(
            #[trigger] ns.drop_first()[k],
            lo,
        ) && node_ids_installed(ns.drop_first()[k], entries) by {
            assert(ns.drop_first()[k] == ns[k + 1]);
        }
        lemma_children_errors_are_query_errors(entries, ns.drop_first(), ctx, lo);
    }
}

/// Idempotence under no-op events.  If a message leaves the target
/// component's state unchanged, dispatching it leaves the whole registry
/// unchanged, and therefore the text of any node rendered against it.
pub proof fn lemma_noop_event_preserves_node_text<C: Component>(
    entries: Seq<Entry<C, C::Qry>>,
    i: int,
    msg: C::Msg,
    n: Node<C::Qry>,
    ctx: ContextModel<C>,
    lo: nat,
)
    requires
        0 <= i < entries.len(),
        entries[i].component.next_spec(msg) == entries[i].component,
    ensures
        dispatch_spec(entries, i, msg) == entries,
        node_text(dispatch_spec(entries, i, msg), n, ctx, lo) == node_text(entries, n, ctx, lo),
{
    assert(Entry { component: entries[i].component.next_spec(msg), tree: entries[i].tree }
        == entries[i]);
    assert(dispatch_spec(entries, i, msg) =~= entries);
}

/// Idempotence under no-op events, at the renderer: after dispatching a
/// message that leaves the target component's state unchanged, a full
/// re-render from the root produces the same output as before the event.
pub proof fn lemma_noop_event_preserves_render<C: Component>(
    m: RendererModel<C>,
    target: int,
    msg: C::Msg,
)
    requires
        0 <= target < m.entries.len(),
        m.entries[target].component.next_spec(msg) == m.entries[target].component,
    ensures
        renderer_text(
            RendererModel { entries: dispatch_spec(m.entries, target, msg), root: m.root },
        ) == renderer_text(m),
{
    assert(Entry {
        component: m.entries[target].component.next_spec(msg),
        tree: m.entries[target].tree,
    } == m.entries[target]);
    assert(dispatch_spec(m.entries, target, msg) =~= m.entries);
    assert(RendererModel { entries: dispatch_spec(m.entries, target, msg), root: m.root } =~= m);
}

} // verus!
