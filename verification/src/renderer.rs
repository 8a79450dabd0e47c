//! The renderer: owner of the registry and the root component.
//!
//! `init` mounts the root component (constructing it, registering it and
//! resolving its view) and produces the first full markup string; after
//! that, each callback event delivered through `on_event` is dispatched to
//! the owning component and followed by a full re-render from the root.
//! The host loop around this type receives events from its channel, hands
//! them to `on_event`, and injects the returned markup into the host
//! container; no diffing is performed between successive renders.

use vstd::prelude::*;

use crate::component::Component;
use crate::registry::{
    dispatch_spec, lemma_dispatch_preserves_wf, registry_wf, Entry, Identity, Registry,
};
use crate::tree::{mount_count, resolved, result_text, tree_text, Attributes, Inner, Props, RenderError};
use crate::html::{AttrModel, ComponentRef};

verus! {

/// The renderer state: the arena of mounted components and the identity of
/// the root component once mounted.
pub struct Renderer<C: Component> {
    registry: Registry<C, C::Qry>,
    root: Option<Identity>,
}

/// The mathematical model of a renderer: registry contents and root.
#[verifier::ext_equal]
pub struct RendererModel<C: Component> {
    pub entries: Seq<Entry<C, C::Qry>>,
    pub root: Option<Identity>,
}

impl<C: Component> View for Renderer<C> {
    type V = RendererModel<C>;

    closed spec fn view(&self) -> RendererModel<C> {
        RendererModel { entries: self.registry@, root: self.root }
    }
}

/// The markup text a renderer produces: the root component's stored tree
/// rendered with empty child markup and no attributes, or an error when
/// nothing is mounted or the root does not resolve.
pub open spec fn renderer_text<C: Component>(m: RendererModel<C>) -> Result<
    Seq<char>,
    RenderError,
> {
    match m.root {
        Option::None => Result::Err(RenderError::NotMounted),
        Option::Some(id) => if m.entries.len() <= id.id {
            Result::Err(RenderError::NotFound(id))
        } else {
            match m.entries[id.id as int].tree {
                Option::None => Result::Err(RenderError::NotFound(id)),
                Option::Some(t) => tree_text(m.entries, t, Seq::empty(), Seq::empty()),
            }
        },
    }
}

impl<C: Component> Renderer<C> {
    /// The renderer's registry is well-formed; established by `new` and
    /// preserved by every method.
    pub open spec fn wf(self) -> bool {
        registry_wf(self@.entries)
    }

    /// A renderer with nothing mounted yet.
    pub fn new() -> (r: Renderer<C>)
        ensures
            r@.entries == Seq::<Entry<C, C::Qry>>::empty(),
            r@.root is None,
            r.wf(),
    {
        Renderer { registry: Registry::new(), root: Option::None }
    }

    /// The identity of the root component, once mounted.
    pub fn root_identity(&self) -> (r: Option<Identity>)
        ensures
            r == self@.root,
    {
        self.root
    }

    /// Constructs the root component, registers it and resolves its view
    /// into the initial node tree.  The root's identity is the next free
    /// one, its stored state is the component's initial state, the tree
    /// installed beside it is the resolution of that state's own view, and
    /// earlier registry entries are untouched.
    pub fn create(&mut self)
        requires
            old(self).wf(),
        ensures
            final(self).wf(),
            final(self)@.root matches Option::Some(id) && id.id == old(self)@.entries.len()
                && id.id < final(self)@.entries.len() && final(self)@.entries.len() == old(
                self,
            )@.entries.len() + 1 + mount_count(C::create_spec().view_model())
                && final(self)@.entries[id.id as int].component
                == C::create_spec() && (final(self)@.entries[id.id as int].tree matches Option::Some(t)
                && t.identity == id && resolved(
                final(self)@.entries,
                C::create_spec().view_model(),
                t.node,
                (id.id + 1) as nat,
            )),
            forall|i: int|
                0 <= i < old(self)@.entries.len() ==> final(self)@.entries[i] == old(
                    self,
                )@.entries[i],
    {
        let c = C::create();
        let inner = Inner::new(ComponentRef::Component(c), &mut self.registry);
        match inner {
            Inner::Component(id) => {
                self.root = Option::Some(id);
            },
            Inner::Block(_) => {
                proof {
                    assert(false);
                }
            },
        }
    }

    /// Renders the full markup from the root component's stored tree.  For
    /// fixed registry contents the output is the pure function
    /// [`renderer_text`] of the renderer's state, so two successive renders
    /// produce identical output.
    pub fn render(&self) -> (r: Result<String, RenderError>)
        requires
            self.wf(),
        ensures
            result_text(r) == renderer_text(self@),
    {
        match self.root {
            Option::None => Result::Err(RenderError::NotMounted),
            Option::Some(id) => {
                match self.registry.lookup(id) {
                    Option::None => Result::Err(RenderError::NotFound(id)),
                    Option::Some(entry) => match &entry.tree {
                        Option::None => Result::Err(RenderError::NotFound(id)),
                        Option::Some(t) => {
                            let props = Props::empty();
                            let attributes = Attributes::new(Vec::new());
                            proof {
                                assert(attributes@ =~= Seq::<AttrModel>::empty());
                            }
                            t.render(props, attributes, &self.registry)
                        },
                    },
                }
            },
        }
    }

    /// Mounts the root component — constructing its initial state and
    /// resolving that state's view into the initial node tree — and produces
    /// the first markup string, the render of that tree; the host injects it
    /// into the root container.
    pub fn init(&mut self) -> (r: Result<String, RenderError>)
        requires
            old(self).wf(),
        ensures
            final(self).wf(),
            final(self)@.root matches Option::Some(id) && id.id == old(self)@.entries.len()
                && id.id < final(self)@.entries.len() && final(self)@.entries.len() == old(
                self,
            )@.entries.len() + 1 + mount_count(C::create_spec().view_model())
                && final(self)@.entries[id.id as int].component
                == C::create_spec() && (final(self)@.entries[id.id as int].tree matches Option::Some(t)
                && t.identity == id && resolved(
                final(self)@.entries,
                C::create_spec().view_model(),
                t.node,
                (id.id + 1) as nat,
            )),
            forall|i: int|
                0 <= i < old(self)@.entries.len() ==> final(self)@.entries[i] == old(
                    self,
                )@.entries[i],
            result_text(r) == renderer_text(final(self)@),
    {
        self.create();
        self.render()
    }

    /// Delivers one callback event: the message is dispatched to the owning
    /// component through the registry, and a full re-render from the root
    /// follows unconditionally.  Fails without changing anything exactly
    /// when the target identity is unknown.
    pub fn on_event(&mut self, target: Identity, msg: C::Msg) -> (r: Result<String, RenderError>)
        requires
            old(self).wf(),
        ensures
            final(self).wf(),
            final(self)@.root == old(self)@.root,
            target.id < old(self)@.entries.len() ==> final(self)@.entries == dispatch_spec(
                old(self)@.entries,
                target.id as int,
                msg,
            ) && result_text(r) == renderer_text(final(self)@),
            old(self)@.entries.len() <= target.id ==> final(self)@ == old(self)@ && r
                == Result::<String, RenderError>::Err(RenderError::NotFound(target)),
    {
        match self.registry.dispatch(target, msg) {
            Result::Err(e) => {
                proof {
                    assert(self@ =~= old(self)@);
                }
                Result::Err(e)
            },
            Result::Ok(_) => {
                proof {
                    lemma_dispatch_preserves_wf(old(self)@.entries, target.id as int, msg);
                }
                self.render()
            },
        }
    }
}

} // verus!
