//! Declarative view descriptions.
//!
//! An [`Html`] value is an immutable description of a node: which component
//! (or inline text block) it instantiates, its attributes, and its child view
//! descriptions.  It is produced by a component's `view` call and consumed by
//! the tree resolver.

use vstd::prelude::*;

verus! {

/// A bound on component nesting.
///
/// Every component embedded in a component's view must lie strictly below
/// that component's own depth; a finite depth for every state is what makes
/// view descriptions acyclic, so that tree resolution terminates.
pub trait Nesting: Sized {
    /// The nesting measure of this component's state.
    spec fn depth(self) -> nat;
}

/// A markup attribute: a name together with its value text.
pub struct Attribute {
    pub name: String,
    pub value: String,
}

/// The mathematical model of an attribute: its name and value texts.
#[verifier::ext_equal]
pub struct AttrModel {
    pub name: Seq<char>,
    pub value: Seq<char>,
}

impl View for Attribute {
    type V = AttrModel;

    open spec fn view(&self) -> AttrModel {
        AttrModel { name: self.name@, value: self.value@ }
    }
}

/// The models of a sequence of attributes, in order.
pub open spec fn attributes_model(attrs: Seq<Attribute>) -> Seq<AttrModel> {
    attrs.map_values(|a: Attribute| a@)
}

/// The rendered text of one attribute: ` name="value"`.
pub open spec fn attribute_text(a: AttrModel) -> Seq<char> {
    seq![' '] + a.name + seq!['=', '"'] + a.value + seq!['"']
}

/// The rendered text of an attribute list: each attribute's text, in order.
pub open spec fn attributes_text(attrs: Seq<AttrModel>) -> Seq<char>
    decreases attrs.len(),
{
    if attrs.len() == 0 {
        Seq::empty()
    } else {
        attribute_text(attrs[0]) + attributes_text(attrs.drop_first())
    }
}

/// Appending an attribute appends its text.
pub proof fn lemma_attributes_text_push(attrs: Seq<AttrModel>, a: AttrModel)
    ensures
        attributes_text(attrs.push(a)) == attributes_text(attrs) + attribute_text(a),
    decreases attrs.len(),
{
    if attrs.len() == 0 {
        reveal_with_fuel(attributes_text, 2);
        assert(attrs.push(a)[0] == a);
        assert(attrs.push(a).drop_first() =~= Seq::<AttrModel>::empty());
        assert(attributes_text(attrs.push(a)) =~= attribute_text(a));
        assert(attributes_text(attrs) + attribute_text(a) =~= attribute_text(a));
    } else {
        assert(attrs.push(a).drop_first() =~= attrs.drop_first().push(a));
        lemma_attributes_text_push(attrs.drop_first(), a);
        assert(attributes_text(attrs.push(a)) =~= attributes_text(attrs) + attribute_text(a));
    }
}

impl Attribute {
    pub fn new(name: String, value: String) -> (a: Attribute)
        ensures
            a@.name == name@,
            a@.value == value@,
    {
        Attribute { name, value }
    }

    /// Renders this attribute as ` name="value"`.
    pub fn render(&self) -> (r: String)
        ensures
            r@ == attribute_text(self@),
    {
        proof {
            reveal_strlit(" ");
            reveal_strlit("=\"");
            reveal_strlit("\"");
        }
        let mut out = String::from_str(" ");
        out.append(self.name.as_str());
        out.append("=\"");
        out.append(self.value.as_str());
        out.append("\"");
        assert(out@ =~= attribute_text(self@));
        out
    }

    /// An owned copy of this attribute, equal in model.
    pub fn duplicate(&self) -> (a: Attribute)
        ensures
            a@ == self@,
    {
        Attribute { name: self.name.clone(), value: self.value.clone() }
    }
}

/// One piece of an inline text block.
///
/// In place of an opaque text-producing closure, a block is an explicit
/// sequence of segments: literal text, a query against the owning component
/// (the extraction protocol), the already-rendered child markup, or the
/// rendered attribute text of the surrounding context.
pub enum Segment<Q> {
    Lit(String),
    Extract(Q),
    Children,
    AttrText,
}

/// An inline text block: the "evaluate this text-producing function against a
/// context" variant of a view description, as explicit data.
pub struct Block<Q> {
    pub segments: Vec<Segment<Q>>,
}

/// The reference variant of a view description: either instantiate a
/// component, or evaluate an inline text block against the render context.
pub enum ComponentRef<C, Q> {
    Component(C),
    Block(Block<Q>),
}

/// An immutable declarative view description: a reference variant, an
/// attribute list, and the child view descriptions (the props slot).
pub struct Html<C, Q> {
    pub component: ComponentRef<C, Q>,
    pub attributes: Vec<Attribute>,
    pub props: Vec<Html<C, Q>>,
}

/// The mathematical model of a block segment.
pub enum SegModel<Q> {
    Lit(Seq<char>),
    Extract(Q),
    Children,
    AttrText,
}

impl<Q> View for Segment<Q> {
    type V = SegModel<Q>;

    open spec fn view(&self) -> SegModel<Q> {
        match *self {
            Segment::Lit(s) => SegModel::Lit(s@),
            Segment::Extract(q) => SegModel::Extract(q),
            Segment::Children => SegModel::Children,
            Segment::AttrText => SegModel::AttrText,
        }
    }
}

/// The models of a block's segments, in order.
pub open spec fn block_model<Q>(b: Block<Q>) -> Seq<SegModel<Q>> {
    b.segments@.map_values(|s: Segment<Q>| s@)
}

/// The mathematical model of a reference variant.
pub enum RefModel<C, Q> {
    Component(C),
    Block(Seq<SegModel<Q>>),
}

/// The mathematical model of a view description: its reference variant, the
/// models of its attributes, and the models of its children, in order.
#[verifier::ext_equal]
pub struct HtmlModel<C, Q> {
    pub reference: RefModel<C, Q>,
    pub attributes: Seq<AttrModel>,
    pub children: Seq<HtmlModel<C, Q>>,
}

impl<C, Q> View for ComponentRef<C, Q> {
    type V = RefModel<C, Q>;

    open spec fn view(&self) -> RefModel<C, Q> {
        match *self {
            ComponentRef::Component(c) => RefModel::Component(c),
            ComponentRef::Block(b) => RefModel::Block(block_model(b)),
        }
    }
}

/// The model of a view description.
pub open spec fn html_model<C, Q>(h: Html<C, Q>) -> HtmlModel<C, Q>
    decreases h,
{
    HtmlModel {
        reference: h.component@,
        attributes: attributes_model(h.attributes@),
        children: htmls_model(h.props@),
    }
}

/// The models of a sequence of view descriptions, in order.
pub open spec fn htmls_model<C, Q>(s: Seq<Html<C, Q>>) -> Seq<HtmlModel<C, Q>>
    decreases s,
{
    if s.len() == 0 {
        Seq::empty()
    } else {
        seq![html_model(s[0])] + htmls_model(s.drop_first())
    }
}

/// The model of each view description in a sequence stands at its position.
pub proof fn lemma_htmls_model<C, Q>(s: Seq<Html<C, Q>>)
    ensures
        htmls_model(s).len() == s.len(),
        forall|i: int| 0 <= i < s.len() ==> htmls_model(s)[i] == html_model(#[trigger] s[i]),
    decreases s.len(),
{
    if s.len() > 0 {
        lemma_htmls_model(s.drop_first());
        assert forall|i: int| 0 <= i < s.len() implies htmls_model(s)[i] == html_model(
            #[trigger] s[i],
        ) by {
            if i > 0 {
                assert(s.drop_first()[i - 1] == s[i]);
                assert(htmls_model(s)[i] == htmls_model(s.drop_first())[i - 1]);
            }
        }
    }
}

impl<C, Q> View for Html<C, Q> {
    type V = HtmlModel<C, Q>;

    open spec fn view(&self) -> HtmlModel<C, Q> {
        html_model(*self)
    }
}

impl<C, Q> Html<C, Q> {
    /// Builds a view description from its reference variant, attribute list
    /// and child list.
    pub fn new(
        component: ComponentRef<C, Q>,
        attributes: Vec<Attribute>,
        props: Vec<Html<C, Q>>,
    ) -> (h: Html<C, Q>)
        ensures
            h.component == component,
            h.attributes == attributes,
            h.props == props,
    {
        Html { component, attributes, props }
    }
}

/// The larger of two naturals.
pub open spec fn nat_max(a: nat, b: nat) -> nat {
    if a >= b {
        a
    } else {
        b
    }
}

/// The nesting measure of a reference variant: one more than the embedded
/// component's own depth, or zero for an inline block.
pub open spec fn component_ref_depth<C: Nesting, Q>(r: ComponentRef<C, Q>) -> nat {
    match r {
        ComponentRef::Component(c) => c.depth() + 1,
        ComponentRef::Block(_) => 0,
    }
}

/// The nesting measure of a view description: the largest depth of any
/// component embedded in it, directly or in a child.  Resolution terminates
/// because each step into an embedded component's own view strictly lowers
/// this measure.
pub open spec fn component_depth<C: Nesting, Q>(h: Html<C, Q>) -> nat
    decreases h,
{
    nat_max(component_ref_depth(h.component), children_component_depth(h.props@))
}

/// The largest [`component_depth`] among a sequence of view descriptions.
pub open spec fn children_component_depth<C: Nesting, Q>(s: Seq<Html<C, Q>>) -> nat
    decreases s,
{
    if s.len() == 0 {
        0
    } else {
        nat_max(component_depth(s[0]), children_component_depth(s.drop_first()))
    }
}

/// The structural height of a view description, at least 1.
pub open spec fn html_height<C, Q>(h: Html<C, Q>) -> nat
    decreases h,
{
    1 + children_height(h.props@)
}

/// The largest [`html_height`] among a sequence of view descriptions.
pub open spec fn children_height<C, Q>(s: Seq<Html<C, Q>>) -> nat
    decreases s,
{
    if s.len() == 0 {
        0
    } else {
        nat_max(html_height(s[0]), children_height(s.drop_first()))
    }
}

/// The nesting measure of a reference-variant model.
pub open spec fn ref_model_depth<C: Nesting, Q>(r: RefModel<C, Q>) -> nat {
    match r {
        RefModel::Component(c) => c.depth() + 1,
        RefModel::Block(_) => 0,
    }
}

/// The nesting measure of a view-description model: the largest depth of
/// any component embedded in it, directly or in a child.
pub open spec fn model_depth<C: Nesting, Q>(h: HtmlModel<C, Q>) -> nat
    decreases h,
{
    nat_max(ref_model_depth(h.reference), children_model_depth(h.children))
}

/// The largest [`model_depth`] among a sequence of view-description models.
pub open spec fn children_model_depth<C: Nesting, Q>(s: Seq<HtmlModel<C, Q>>) -> nat
    decreases s,
{
    if s.len() == 0 {
        0
    } else {
        nat_max(model_depth(s[0]), children_model_depth(s.drop_first()))
    }
}

/// Every child's component depth is bounded by the sequence's.
pub proof fn lemma_children_component_depth<C: Nesting, Q>(s: Seq<Html<C, Q>>, i: int)
    requires
        0 <= i < s.len(),
    ensures
        component_depth(s[i]) <= children_component_depth(s),
    decreases s.len(),
{
    if i == 0 {
    } else {
        lemma_children_component_depth(s.drop_first(), i - 1);
    }
}

/// Every child's height is bounded by the sequence's.
pub proof fn lemma_children_height<C, Q>(s: Seq<Html<C, Q>>, i: int)
    requires
        0 <= i < s.len(),
    ensures
        html_height(s[i]) <= children_height(s),
    decreases s.len(),
{
    if i == 0 {
    } else {
        lemma_children_height(s.drop_first(), i - 1);
    }
}

/// A child view description sits strictly below its parent in both measures.
pub proof fn lemma_child_measures<C: Nesting, Q>(h: Html<C, Q>, i: int)
    requires
        0 <= i < h.props@.len(),
    ensures
        component_depth(h.props@[i]) <= component_depth(h),
        html_height(h.props@[i]) < html_height(h),
{
    lemma_children_component_depth(h.props@, i);
    lemma_children_height(h.props@, i);
}

} // verus!
