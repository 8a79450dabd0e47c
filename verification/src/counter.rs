//! A counter component: the canonical stateful component.
//!
//! Its view is an inline text block greeting the user with the current
//! count; an `Increment` callback raises the count (saturating at the
//! machine limit), a `Reset` callback puts it back to zero, and a `Noop`
//! callback leaves it alone.  It answers the
//! `Count` extraction query with the decimal rendering of its count and
//! recognizes no other query.

use vstd::prelude::*;

use crate::component::Component;
use crate::decimal::{decimal_digits, u64_to_decimal};
use crate::html::{
    block_model, children_model_depth, model_depth, Block, ComponentRef, Html, HtmlModel, Nesting,
    RefModel, SegModel, Segment,
};

verus! {

/// A component counting how many increment events it has handled.
#[derive(Clone, Copy, PartialEq, Eq, Structural, Debug)]
pub struct Counter {
    pub count: u64,
}

/// The callback messages a counter can receive.
#[derive(Clone, Copy, PartialEq, Eq, Structural, Debug)]
pub enum CounterMsg {
    Increment,
    Reset,
    Noop,
}

/// The extraction queries an application can route; a counter answers
/// `Count` only, and flags any other variant as a programmer error.
#[derive(Clone, Copy, PartialEq, Eq, Structural, Debug)]
pub enum CounterQry {
    Count,
    Title,
}

impl Nesting for Counter {
    /// A counter's view embeds no components at all.
    open spec fn depth(self) -> nat {
        0
    }
}

impl Component for Counter {
    type Msg = CounterMsg;

    type Qry = CounterQry;

    open spec fn create_spec() -> Counter {
        Counter { count: 0 }
    }

    open spec fn next_spec(self, msg: CounterMsg) -> Counter {
        match msg {
            CounterMsg::Increment => if self.count == u64::MAX {
                self
            } else {
                Counter { count: (self.count + 1) as u64 }
            },
            CounterMsg::Reset => Counter { count: 0 },
            CounterMsg::Noop => self,
        }
    }

    open spec fn view_model(self) -> HtmlModel<Counter, CounterQry> {
        HtmlModel {
            reference: RefModel::Block(
                seq![
                    SegModel::Lit("Welcome! Count: "@),
                    SegModel::Extract(CounterQry::Count),
                ],
            ),
            attributes: Seq::empty(),
            children: Seq::empty(),
        }
    }

    open spec fn extract_spec(self, qry: CounterQry) -> Option<Seq<char>> {
        match qry {
            CounterQry::Count => Option::Some(decimal_digits(self.count as nat)),
            CounterQry::Title => Option::None,
        }
    }

    proof fn view_depth_law(c: Counter) {
        assert(model_depth(Counter::view_model(c)) == 0) by {
            assert(children_model_depth(Counter::view_model(c).children) == 0);
        }
    }

    fn create() -> (c: Counter) {
        Counter { count: 0 }
    }

    fn handle_callback(&mut self, msg: CounterMsg) {
        match msg {
            CounterMsg::Increment => {
                if self.count < u64::MAX {
                    self.count = self.count + 1;
                }
            },
            CounterMsg::Reset => {
                self.count = 0;
            },
            CounterMsg::Noop => {},
        }
    }

    fn extract(&self, qry: &CounterQry) -> (r: Option<String>) {
        match qry {
            CounterQry::Count => Option::Some(u64_to_decimal(self.count)),
            CounterQry::Title => Option::None,
        }
    }

    fn view(&self) -> (h: Html<Counter, CounterQry>) {
        let mut segments: Vec<Segment<CounterQry>> = Vec::new();
        segments.push(Segment::Lit(String::from_str("Welcome! Count: ")));
        segments.push(Segment::Extract(CounterQry::Count));
        let ghost block = Block { segments };
        let h = Html::new(
            ComponentRef::Block(Block { segments }),
            Vec::new(),
            Vec::new(),
        );
        proof {
            assert(h.props@ =~= Seq::<Html<Counter, CounterQry>>::empty());
            assert(h.attributes@ =~= Seq::<crate::html::Attribute>::empty());
            assert(block_model(block) =~= seq![
                SegModel::Lit("Welcome! Count: "@),
                SegModel::Extract(CounterQry::Count),
            ]);
            assert(h@.children =~= Seq::<HtmlModel<Counter, CounterQry>>::empty());
            assert(h@.attributes =~= Seq::<crate::html::AttrModel>::empty());
            assert(h@ =~= self.view_model());
        }
        h
    }

    fn snapshot(&self) -> (c: Counter) {
        Counter { count: self.count }
    }
}

} // verus!
