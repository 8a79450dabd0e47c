use saar::component::Component;
use saar::counter::{Counter, CounterMsg, CounterQry};
use saar::registry::{Identity, Registry};
use saar::renderer::Renderer;
use saar::tree::RenderError;

#[test]
fn register_returns_pairwise_distinct_identities() {
    let mut reg: Registry<Counter, CounterQry> = Registry::new();
    let a = reg.register(Counter { count: 1 });
    let b = reg.register(Counter { count: 2 });
    let c = reg.register(Counter { count: 3 });
    assert_ne!(a, b);
    assert_ne!(a, c);
    assert_ne!(b, c);
}

#[test]
fn lookup_resolves_to_the_component_passed_in() {
    let mut reg: Registry<Counter, CounterQry> = Registry::new();
    let a = reg.register(Counter { count: 10 });
    let b = reg.register(Counter { count: 20 });
    assert_eq!(reg.lookup(a).unwrap().component, Counter { count: 10 });
    assert_eq!(reg.lookup(b).unwrap().component, Counter { count: 20 });
}

#[test]
fn lookup_of_unknown_identity_fails() {
    let reg: Registry<Counter, CounterQry> = Registry::new();
    assert!(reg.lookup(Identity { id: 0 }).is_none());
}

#[test]
fn dispatch_to_unknown_identity_fails() {
    let mut reg: Registry<Counter, CounterQry> = Registry::new();
    let r = reg.dispatch(Identity { id: 5 }, CounterMsg::Increment);
    assert_eq!(r, Err(RenderError::NotFound(Identity { id: 5 })));
}

#[test]
fn render_before_init_reports_nothing_mounted() {
    let renderer: Renderer<Counter> = Renderer::new();
    assert_eq!(renderer.render(), Err(RenderError::NotMounted));
}

#[test]
fn init_renders_the_initial_tree_into_the_empty_container() {
    let mut container = String::new();
    assert_eq!(container, "");
    let mut renderer: Renderer<Counter> = Renderer::new();
    container = renderer.init().unwrap();
    // The container holds exactly the render of the initial node tree.
    assert_eq!(container, "Welcome! Count: 0");
    assert_eq!(renderer.render().unwrap(), container);
}

#[test]
fn counter_increments_across_renders() {
    let mut renderer: Renderer<Counter> = Renderer::new();
    let markup = renderer.init().unwrap();
    assert_eq!(markup, "Welcome! Count: 0");
    let root = renderer.root_identity().unwrap();
    let markup = renderer.on_event(root, CounterMsg::Increment).unwrap();
    assert_eq!(markup, "Welcome! Count: 1");
    let markup = renderer.on_event(root, CounterMsg::Increment).unwrap();
    assert_eq!(markup, "Welcome! Count: 2");
}

#[test]
fn events_apply_in_arrival_order() {
    // Increment-then-reset and reset-then-increment end in different states,
    // so the final markup shows which order was applied.
    let mut renderer: Renderer<Counter> = Renderer::new();
    renderer.init().unwrap();
    let root = renderer.root_identity().unwrap();
    renderer.on_event(root, CounterMsg::Increment).unwrap();
    let markup = renderer.on_event(root, CounterMsg::Reset).unwrap();
    assert_eq!(markup, "Welcome! Count: 0");

    let mut renderer: Renderer<Counter> = Renderer::new();
    renderer.init().unwrap();
    let root = renderer.root_identity().unwrap();
    renderer.on_event(root, CounterMsg::Reset).unwrap();
    let markup = renderer.on_event(root, CounterMsg::Increment).unwrap();
    assert_eq!(markup, "Welcome! Count: 1");
}

#[test]
fn noop_event_leaves_render_output_unchanged() {
    let mut renderer: Renderer<Counter> = Renderer::new();
    renderer.init().unwrap();
    let root = renderer.root_identity().unwrap();
    renderer.on_event(root, CounterMsg::Increment).unwrap();
    let before = renderer.render().unwrap();
    let after = renderer.on_event(root, CounterMsg::Noop).unwrap();
    assert_eq!(before, after);
}

#[test]
fn counter_saturates_at_the_machine_limit() {
    let mut c = Counter { count: u64::MAX };
    c.handle_callback(CounterMsg::Increment);
    assert_eq!(c, Counter { count: u64::MAX });
}

#[test]
fn event_to_unknown_identity_fails_and_changes_nothing() {
    let mut renderer: Renderer<Counter> = Renderer::new();
    renderer.init().unwrap();
    let before = renderer.render().unwrap();
    let r = renderer.on_event(Identity { id: 99 }, CounterMsg::Increment);
    assert_eq!(r, Err(RenderError::NotFound(Identity { id: 99 })));
    assert_eq!(renderer.render().unwrap(), before);
}
