//! The component capability contract.
//!
//! A component is a stateful unit with four capabilities: `create` produces
//! the initial state, `handle_callback` accepts a message and mutates the
//! state, `extract` answers a query with a derived string, and `view` returns
//! the component's current view description.  Messages and queries are closed
//! sum types chosen by the implementer, so dispatch is matched exhaustively
//! instead of downcast at run time.

use vstd::prelude::*;

use crate::html::{component_depth, model_depth, Html, HtmlModel, Nesting};

verus! {

pub trait Component: Nesting {
    /// The closed set of callback messages this component can receive.
    type Msg;

    /// The closed set of extraction queries an application can route to a
    /// component.  A component answers the variants meant for it; any other
    /// variant is a programmer error surfaced by `extract` returning `None`.
    type Qry;

    /// The initial state produced by `create`.
    spec fn create_spec() -> Self;

    /// The state after handling a callback message.
    spec fn next_spec(self, msg: Self::Msg) -> Self;

    /// The derived string for a query, or `None` for a query this component
    /// does not recognize.
    spec fn extract_spec(self, qry: Self::Qry) -> Option<Seq<char>>;

    /// The model of the view description this component produces in a given
    /// state.  `view` returns exactly this, so what a resolved tree holds is
    /// pinned to the component's state.
    spec fn view_model(self) -> HtmlModel<Self, Self::Qry>;

    /// Every component embedded in a state's view lies strictly below that
    /// state's depth.  This is the acyclicity of view descriptions as a
    /// law: it bounds how many components one registration can mount.
    proof fn view_depth_law(c: Self)
        ensures
            model_depth(Self::view_model(c)) <= c.depth(),
    ;

    /// Produces the initial state.
    fn create() -> (c: Self)
        ensures
            c == Self::create_spec(),
    ;

    /// Handles a callback message by mutating the state.
    fn handle_callback(&mut self, msg: Self::Msg)
        ensures
            *final(self) == old(self).next_spec(msg),
    ;

    /// Answers an extraction query with a derived string, or `None` for a
    /// query this component does not recognize.
    fn extract(&self, qry: &Self::Qry) -> (r: Option<String>)
        ensures
            match r {
                Option::Some(s) => self.extract_spec(*qry) == Option::Some(s@),
                Option::None => self.extract_spec(*qry) is None,
            },
    ;

    /// Returns the component's current view description: a description whose
    /// model is exactly `view_model` of the current state, in which every
    /// embedded component lies strictly below this component's depth.
    fn view(&self) -> (h: Html<Self, Self::Qry>)
        ensures
            h@ == self.view_model(),
            component_depth(h) <= self.depth(),
    ;

    /// An owned copy of the current state, used to hand a render context its
    /// owning component.
    fn snapshot(&self) -> (c: Self)
        ensures
            c == *self,
    ;
}

} // verus!
