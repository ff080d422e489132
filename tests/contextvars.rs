use logbook_speedups::ContextVar;

#[test]
fn contextvar_no_default() {
    let foo = "foo";
    let bar = "bar";
    let baz = "baz";
    let mut var: ContextVar<&str> = ContextVar::new();
    assert!(var.get(None).is_none());
    assert_eq!(var.get(Some(&foo)), Some(&foo));
    let token = var.set(baz);
    assert_eq!(var.get(None), Some(&baz));
    assert_eq!(var.get(Some(&bar)), Some(&baz));
    assert!(token.get_old_value().is_none());
    var.reset(token);
    assert!(var.get(None).is_none());
    assert_eq!(var.get(Some(&bar)), Some(&bar));
}

#[test]
fn contextvar_with_default() {
    let foo = "foo";
    let bar = "bar";
    let baz = "baz";
    let mut var: ContextVar<&str> = ContextVar::new_with_default(foo);
    assert_eq!(var.get(None), Some(&foo));
    assert_eq!(var.get(Some(&bar)), Some(&bar));
    let token = var.set(baz);
    assert_eq!(var.get(None), Some(&baz));
    assert_eq!(var.get(Some(&bar)), Some(&baz));
    assert!(token.get_old_value().is_none());
    var.reset(token);
    assert_eq!(var.get(None), Some(&foo));
    assert_eq!(var.get(Some(&bar)), Some(&bar));
}

#[test]
fn contextvar_token_holds_replaced_value() {
    let mut var: ContextVar<u64> = ContextVar::new_with_default(1);
    let first = var.set(2);
    let second = var.set(3);
    assert_eq!(second.get_old_value(), Some(&2));
    assert_eq!(var.get(None), Some(&3));
    var.reset(second);
    assert_eq!(var.get(None), Some(&2));
    var.reset(first);
    assert_eq!(var.get(None), Some(&1));
}

#[test]
fn contextvar_fork_is_independent() {
    let mut parent: ContextVar<u64> = ContextVar::new_with_default(0);
    let _t = parent.set(5);
    let mut child = parent.fork();
    assert_eq!(child.get(None), Some(&5));
    let _c = child.set(7);
    assert_eq!(parent.get(None), Some(&5));
    assert_eq!(child.get(None), Some(&7));
}
