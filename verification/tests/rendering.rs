use saar::counter::{Counter, CounterQry};
use saar::html::{Attribute, Block, ComponentRef, Html, Segment};
use saar::registry::{Identity, Registry};
use saar::tree::{Attributes, Context, Inner, Node, Props, RenderError};
use saar::u64_to_decimal;

#[test]
fn decimal_zero() {
    assert_eq!(u64_to_decimal(0), "0");
}

#[test]
fn decimal_single_digit() {
    assert_eq!(u64_to_decimal(7), "7");
}

#[test]
fn decimal_multi_digit() {
    assert_eq!(u64_to_decimal(42), "42");
    assert_eq!(u64_to_decimal(12345), "12345");
}

#[test]
fn decimal_max() {
    assert_eq!(u64_to_decimal(u64::MAX), "18446744073709551615");
}

#[test]
fn attribute_renders_name_value_pair() {
    let a = Attribute::new(String::from("class"), String::from("main"));
    assert_eq!(a.render(), " class=\"main\"");
}

#[test]
fn attributes_render_in_order() {
    let attrs = Attributes::new(vec![
        Attribute::new(String::from("id"), String::from("root")),
        Attribute::new(String::from("class"), String::from("main")),
    ]);
    assert_eq!(attrs.render(), " id=\"root\" class=\"main\"");
}

#[test]
fn empty_props_render_to_nothing() {
    assert_eq!(Props::empty().render(), "");
}

#[test]
fn context_extract_forwards_to_component() {
    let ctx = Context::new(Counter { count: 9 }, Props::empty(), Attributes::new(Vec::new()));
    assert_eq!(ctx.extract(&CounterQry::Count), Some(String::from("9")));
}

#[test]
fn context_extract_unrecognized_query_is_flagged() {
    let ctx = Context::new(Counter { count: 9 }, Props::empty(), Attributes::new(Vec::new()));
    assert_eq!(ctx.extract(&CounterQry::Title), None);
}

fn block_view(segments: Vec<Segment<CounterQry>>) -> Html<Counter, CounterQry> {
    Html::new(ComponentRef::Block(Block { segments }), Vec::new(), Vec::new())
}

#[test]
fn block_node_renders_literal_and_extracted_text() {
    let mut reg: Registry<Counter, CounterQry> = Registry::new();
    let view = block_view(vec![
        Segment::Lit(String::from("count=")),
        Segment::Extract(CounterQry::Count),
    ]);
    let node = Node::new(view, Identity { id: 0 }, &mut reg);
    let ctx = Context::new(Counter { count: 5 }, Props::empty(), Attributes::new(Vec::new()));
    assert_eq!(node.render(ctx, &reg), Ok(String::from("count=5")));
}

#[test]
fn unrecognized_extract_query_fails_the_render() {
    let mut reg: Registry<Counter, CounterQry> = Registry::new();
    let view = block_view(vec![
        Segment::Lit(String::from("title=")),
        Segment::Extract(CounterQry::Title),
    ]);
    let node = Node::new(view, Identity { id: 0 }, &mut reg);
    let ctx = Context::new(Counter { count: 5 }, Props::empty(), Attributes::new(Vec::new()));
    assert_eq!(node.render(ctx, &reg), Err(RenderError::UnknownQuery));
}

#[test]
fn block_splices_attribute_text_and_child_markup() {
    let mut reg: Registry<Counter, CounterQry> = Registry::new();
    let view = block_view(vec![
        Segment::Lit(String::from("<div")),
        Segment::AttrText,
        Segment::Lit(String::from(">")),
        Segment::Children,
        Segment::Lit(String::from("</div>")),
    ]);
    let node = Node::new(view, Identity { id: 0 }, &mut reg);
    let attrs = Attributes::new(vec![Attribute::new(
        String::from("class"),
        String::from("main"),
    )]);
    let props = Props::new(Vec::new(), &Context::new(Counter { count: 0 }, Props::empty(), Attributes::new(Vec::new())), &reg)
        .unwrap();
    let ctx = Context::new(Counter { count: 0 }, props, attrs);
    assert_eq!(
        node.render(ctx, &reg),
        Ok(String::from("<div class=\"main\"></div>"))
    );
}

#[test]
fn child_order_is_preserved_through_resolution_and_render() {
    let mut reg: Registry<Counter, CounterQry> = Registry::new();
    let first = block_view(vec![Segment::Lit(String::from("first"))]);
    let second = block_view(vec![Segment::Lit(String::from("second"))]);
    let parent = Html::new(
        ComponentRef::Block(Block {
            segments: vec![Segment::Children],
        }),
        Vec::new(),
        vec![first, second],
    );
    let node = Node::new(parent, Identity { id: 0 }, &mut reg);
    // Resolution keeps the child list: same count, same order.
    assert_eq!(node.props.len(), 2);
    let base = Context::new(Counter { count: 0 }, Props::empty(), Attributes::new(Vec::new()));
    // A block node ignores its own children; render them separately and
    // splice them through the context, as a component hop would.
    let children = vec![
        Node::new(block_view(vec![Segment::Lit(String::from("first"))]), Identity { id: 0 }, &mut reg),
        Node::new(block_view(vec![Segment::Lit(String::from("second"))]), Identity { id: 0 }, &mut reg),
    ];
    let props = Props::new(children, &base, &reg).unwrap();
    let ctx = Context::new(Counter { count: 0 }, props, Attributes::new(Vec::new()));
    assert_eq!(node.render(ctx, &reg), Ok(String::from("firstsecond")));
}

#[test]
fn embedded_component_renders_its_own_view() {
    let mut reg: Registry<Counter, CounterQry> = Registry::new();
    let view = Html::new(
        ComponentRef::Component(Counter { count: 3 }),
        Vec::new(),
        Vec::new(),
    );
    let node = Node::new(view, Identity { id: 0 }, &mut reg);
    let ctx = Context::new(Counter { count: 0 }, Props::empty(), Attributes::new(Vec::new()));
    assert_eq!(node.render(ctx, &reg), Ok(String::from("Welcome! Count: 3")));
}

#[test]
fn inner_block_renders_against_the_context() {
    let mut reg: Registry<Counter, CounterQry> = Registry::new();
    let inner = Inner::new::<Counter>(
        ComponentRef::Block(Block {
            segments: vec![Segment::Lit(String::from("hi"))],
        }),
        &mut reg,
    );
    let ctx = Context::new(Counter { count: 0 }, Props::empty(), Attributes::new(Vec::new()));
    assert_eq!(
        inner.render(Props::empty(), Attributes::new(Vec::new()), ctx, &reg),
        Ok(String::from("hi"))
    );
}

#[test]
fn render_is_deterministic_for_fixed_tree_and_registry() {
    let mut reg: Registry<Counter, CounterQry> = Registry::new();
    let view = block_view(vec![
        Segment::Lit(String::from("n=")),
        Segment::Extract(CounterQry::Count),
    ]);
    let node = Node::new(view, Identity { id: 0 }, &mut reg);
    let ctx1 = Context::new(Counter { count: 3 }, Props::empty(), Attributes::new(Vec::new()));
    let ctx2 = Context::new(Counter { count: 3 }, Props::empty(), Attributes::new(Vec::new()));
    assert_eq!(node.render(ctx1, &reg), node.render(ctx2, &reg));
}
