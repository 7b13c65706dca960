use otel_wasi::main_span::{
    current_main_span, enter_main_span, leave_main_span, MainSpanStack,
};
use otel_wasi::{set_main_attributes, Attribute};
use tracing::Span;

#[test]
fn main_span_context_is_scoped() {
    let mut stack: MainSpanStack<Span> = MainSpanStack::new();
    assert!(current_main_span(&stack).is_none());

    let first = Span::none();
    let first_guard = enter_main_span(&mut stack, first);
    assert!(current_main_span(&stack).is_some());

    {
        let second = Span::none();
        let second_guard = enter_main_span(&mut stack, second);
        assert!(current_main_span(&stack).is_some());
        leave_main_span(&mut stack, second_guard);
    }

    assert!(current_main_span(&stack).is_some());
    leave_main_span(&mut stack, first_guard);
    assert!(current_main_span(&stack).is_none());
}

#[test]
fn set_main_attributes_uses_registered_span() {
    let span = Span::none();
    let mut stack: MainSpanStack<Span> = MainSpanStack::new();
    let _guard = enter_main_span(&mut stack, span);

    let written = set_main_attributes(&stack, vec![Attribute::integer("test.value", 1_i64)]);
    assert!(written.is_some());
}

#[test]
fn set_main_attributes_outside_main_span_is_a_no_op() {
    let stack: MainSpanStack<Span> = MainSpanStack::new();
    let written = set_main_attributes(&stack, vec![Attribute::integer("test.value", 1_i64)]);
    assert!(written.is_none());
}

#[test]
fn current_main_span_is_the_innermost() {
    let mut stack: MainSpanStack<u32> = MainSpanStack::new();
    let outer = enter_main_span(&mut stack, 1);
    assert_eq!(outer.depth(), 1);
    assert_eq!(current_main_span(&stack), Some(1));
    let inner = enter_main_span(&mut stack, 2);
    assert_eq!(inner.depth(), 2);
    assert_eq!(current_main_span(&stack), Some(2));
    leave_main_span(&mut stack, inner);
    assert_eq!(current_main_span(&stack), Some(1));
    leave_main_span(&mut stack, outer);
    assert_eq!(current_main_span(&stack), None);
    assert_eq!(stack.len(), 0);
}

#[test]
fn leaving_with_nothing_entered_changes_nothing() {
    let mut stack: MainSpanStack<u32> = MainSpanStack::new();
    let guard = enter_main_span(&mut stack, 7);
    leave_main_span(&mut stack, guard);
    let extra = enter_main_span(&mut stack, 8);
    leave_main_span(&mut stack, extra);
    assert_eq!(stack.len(), 0);
    assert_eq!(current_main_span(&stack), None);
}
