//! The identity-keyed component registry.
//!
//! The registry is an append-only arena: `register` stores a component and
//! hands back a fresh [`Identity`], `install` stores the resolved tree of the
//! component's view beside it, and `lookup` resolves an identity back to its
//! entry.  Identities are indices into the arena; they are never reused, so
//! identities from distinct registrations are always distinct.

use vstd::prelude::*;

use crate::component::Component;
use crate::tree::{lemma_node_ids_installed_mono, node_ids_ge, node_ids_installed, RenderError, Tree};

verus! {

/// An opaque, copyable handle to a registered component: the position of its
/// entry in the arena.
#[derive(Clone, Copy, PartialEq, Eq, Structural, Debug)]
pub struct Identity {
    pub id: usize,
}

/// A registry entry: the live component instance, and the resolved tree of
/// its view once installation completes.
pub struct Entry<C, Q> {
    pub component: C,
    pub tree: Option<Tree<Q>>,
}

/// The arena of all mounted components.
pub struct Registry<C, Q> {
    entries: Vec<Entry<C, Q>>,
}

impl<C, Q> View for Registry<C, Q> {
    type V = Seq<Entry<C, Q>>;

    closed spec fn view(&self) -> Seq<Entry<C, Q>> {
        self.entries@
    }
}

/// Well-formedness of one entry: an installed tree carries its own identity
/// and refers only to components registered after it, each of which is
/// itself registered with a tree installed.
pub open spec fn entry_wf<C, Q>(entries: Seq<Entry<C, Q>>, i: int) -> bool {
    entries[i].tree matches Option::Some(t) ==> t.identity.id == i && node_ids_ge(
        t.node,
        (i + 1) as nat,
    ) && node_ids_installed(t.node, entries)
}

/// Well-formedness of the whole registry: every installed tree points only
/// at later, fully installed entries — so a render pass can never loop, and
/// never fails to resolve an identity.
pub open spec fn registry_wf<C, Q>(entries: Seq<Entry<C, Q>>) -> bool {
    forall|i: int| 0 <= i < entries.len() ==> #[trigger] entry_wf(entries, i)
}

/// The registry contents after a callback message is dispatched to the
/// component registered at position `i`.
pub open spec fn dispatch_spec<C: Component>(
    entries: Seq<Entry<C, C::Qry>>,
    i: int,
    msg: C::Msg,
) -> Seq<Entry<C, C::Qry>> {
    entries.update(
        i,
        Entry { component: entries[i].component.next_spec(msg), tree: entries[i].tree },
    )
}

/// Dispatch leaves every installed tree alone, so well-formedness survives.
pub proof fn lemma_dispatch_preserves_wf<C: Component>(
    entries: Seq<Entry<C, C::Qry>>,
    i: int,
    msg: C::Msg,
)
    requires
        registry_wf(entries),
        0 <= i < entries.len(),
    ensures
        registry_wf(dispatch_spec(entries, i, msg)),
{
    let after = dispatch_spec(entries, i, msg);
    assert forall|j: int| 0 <= j < after.len() implies #[trigger] entry_wf(after, j) by {
        assert(entry_wf(entries, j));
        assert(after[j].tree == entries[j].tree);
        if after[j].tree is Some {
            lemma_node_ids_installed_mono(after[j].tree->Some_0.node, entries, after);
        }
    }
}

impl<C, Q> Registry<C, Q> {
    /// An empty registry.
    pub fn new() -> (r: Registry<C, Q>)
        ensures
            r@ == Seq::<Entry<C, Q>>::empty(),
    {
        let r = Registry { entries: Vec::new() };
        proof {
            assert(r@ =~= Seq::<Entry<C, Q>>::empty());
        }
        r
    }

    /// The number of entries registered so far.
    pub fn len(&self) -> (n: usize)
        ensures
            n == self@.len(),
    {
        self.entries.len()
    }

    /// Stores a component and returns its fresh identity: the identity of
    /// every earlier registration is smaller, so identities are pairwise
    /// distinct, and the stored component is exactly the one passed in.
    pub fn register(&mut self, component: C) -> (id: Identity)
        ensures
            id.id == old(self)@.len(),
            final(self)@ == old(self)@.push(Entry { component, tree: Option::None }),
    {
        let id = Identity { id: self.entries.len() };
        self.entries.push(Entry { component, tree: Option::None });
        id
    }

    /// Stores the resolved tree of a registered component's view beside it.
    pub fn install(&mut self, id: Identity, tree: Tree<Q>)
        requires
            id.id < old(self)@.len(),
        ensures
            final(self)@ == old(self)@.update(
                id.id as int,
                Entry { component: old(self)@[id.id as int].component, tree: Option::Some(tree) },
            ),
    {
        let mut entry = self.entries.remove(id.id);
        entry.tree = Option::Some(tree);
        self.entries.insert(id.id, entry);
        proof {
            assert(self@ =~= old(self)@.update(
                id.id as int,
                Entry { component: old(self)@[id.id as int].component, tree: Option::Some(tree) },
            ));
        }
    }

    /// Resolves an identity to the stored entry; `None` exactly when the
    /// identity was never registered.
    pub fn lookup(&self, id: Identity) -> (r: Option<&Entry<C, Q>>)
        ensures
            match r {
                Option::Some(e) => id.id < self@.len() && *e == self@[id.id as int],
                Option::None => self@.len() <= id.id,
            },
    {
        if id.id < self.entries.len() {
            Option::Some(&self.entries[id.id])
        } else {
            Option::None
        }
    }
}

impl<C: Component> Registry<C, C::Qry> {
    /// Delivers a callback message to the component registered under `id`,
    /// mutating its state in place; fails exactly when the identity is
    /// unknown.
    pub fn dispatch(&mut self, id: Identity, msg: C::Msg) -> (r: Result<(), RenderError>)
        ensures
            match r {
                Result::Ok(_) => id.id < old(self)@.len() && final(self)@ == dispatch_spec(
                    old(self)@,
                    id.id as int,
                    msg,
                ),
                Result::Err(e) => old(self)@.len() <= id.id && e == RenderError::NotFound(id)
                    && final(self)@ == old(self)@,
            },
    {
        if id.id >= self.entries.len() {
            return Result::Err(RenderError::NotFound(id));
        }
        let mut entry = self.entries.remove(id.id);
        entry.component.handle_callback(msg);
        self.entries.insert(id.id, entry);
        proof {
            assert(self@ =~= dispatch_spec(old(self)@, id.id as int, msg));
        }
        Result::Ok(())
    }
}

} // verus!
