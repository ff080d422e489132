use logbook_speedups::{ContextStackManager, Entry, StackError, MAX_CONTEXT_OBJECT_CACHE};

const A: u64 = 1;
const B: u64 = 2;
const X: u64 = 100;

#[test]
fn global_ordering_scenario() {
    let mut m = ContextStackManager::new();
    let mut ctx = m.new_context();
    m.push_context(&mut ctx, A);
    m.push_application(X);
    m.push_context(&mut ctx, B);
    assert_eq!(m.iter_context_objects(&ctx), vec![B, X, A]);
    assert_eq!(m.pop_context(&mut ctx), Ok(B));
    let remaining: Vec<u64> = ctx.get(None).unwrap().to_vec().iter().map(|e| e.obj).collect();
    assert_eq!(remaining, vec![A]);
    assert_eq!(m.iter_context_objects(&ctx), vec![X, A]);
}

#[test]
fn sequence_numbers_are_shared() {
    let mut m = ContextStackManager::new();
    let mut ctx = m.new_context();
    m.push_context(&mut ctx, A);
    m.push_application(X);
    m.push_context(&mut ctx, B);
    assert_eq!(m.get_stack_count(), 3);
    assert_eq!(m.get_global(), vec![Entry { seq: 1, obj: X }]);
    let snap = ctx.get(None).unwrap().to_vec();
    assert_eq!(snap, vec![Entry { seq: 0, obj: A }, Entry { seq: 2, obj: B }]);
}

#[test]
fn push_pop_context_round_trip() {
    let mut m = ContextStackManager::new();
    let mut ctx = m.new_context();
    m.push_context(&mut ctx, A);
    for obj in [5u64, 6, 7] {
        let before = ctx.get(None).unwrap().clone();
        m.push_context(&mut ctx, obj);
        assert_eq!(m.pop_context(&mut ctx), Ok(obj));
        assert!(ctx.get(None).unwrap().equals(&before));
    }
}

#[test]
fn pop_context_underflow() {
    let m = ContextStackManager::new();
    let mut ctx = m.new_context();
    assert_eq!(m.pop_context(&mut ctx), Err(StackError::NoContextObjects));
    assert_eq!(ctx.get(None).unwrap().len(), 0);
}

#[test]
fn pop_application_underflow() {
    let mut m = ContextStackManager::new();
    assert_eq!(m.pop_application(), Err(StackError::NoApplicationObjects));
    assert_eq!(m.get_global(), Vec::<Entry>::new());
    m.push_application(X);
    assert_eq!(m.pop_application(), Ok(X));
    assert_eq!(m.pop_application(), Err(StackError::NoApplicationObjects));
}

#[test]
fn cache_reflects_global_changes() {
    let mut m = ContextStackManager::new();
    let mut ctx = m.new_context();
    m.push_context(&mut ctx, A);
    assert_eq!(m.iter_context_objects(&ctx), vec![A]);
    assert_eq!(m.get_cache_len(), 1);
    m.push_application(X);
    assert_eq!(m.get_cache_len(), 0);
    assert_eq!(m.iter_context_objects(&ctx), vec![X, A]);
    assert_eq!(m.pop_application(), Ok(X));
    assert_eq!(m.iter_context_objects(&ctx), vec![A]);
}

#[test]
fn cache_hit_keeps_cache() {
    let mut m = ContextStackManager::new();
    let mut ctx = m.new_context();
    m.push_context(&mut ctx, A);
    assert_eq!(m.iter_context_objects(&ctx), vec![A]);
    assert_eq!(m.iter_context_objects(&ctx), vec![A]);
    assert_eq!(m.get_cache_len(), 1);
    let other = ContextStackManager::fork_context(&ctx);
    assert_eq!(m.iter_context_objects(&other), vec![A]);
    assert_eq!(m.get_cache_len(), 1);
}

#[test]
fn cache_is_bounded() {
    let mut m = ContextStackManager::new();
    let mut ctx = m.new_context();
    for i in 0..MAX_CONTEXT_OBJECT_CACHE as u64 {
        m.push_context(&mut ctx, i);
        let _ = m.iter_context_objects(&ctx);
    }
    assert_eq!(m.get_cache_len(), MAX_CONTEXT_OBJECT_CACHE);
    m.push_context(&mut ctx, 1000);
    let objs = m.iter_context_objects(&ctx);
    assert_eq!(objs[0], 1000);
    assert_eq!(m.get_cache_len(), 1);
}

#[test]
fn empty_state_yields_nothing() {
    let mut m = ContextStackManager::new();
    let ctx = m.new_context();
    assert_eq!(m.iter_context_objects(&ctx), Vec::<u64>::new());
}

#[test]
fn forked_contexts_are_isolated() {
    let mut m = ContextStackManager::new();
    let mut parent = m.new_context();
    m.push_context(&mut parent, A);
    m.push_application(X);
    let mut left = ContextStackManager::fork_context(&parent);
    let mut right = ContextStackManager::fork_context(&parent);
    m.push_context(&mut left, 10);
    m.push_context(&mut right, 20);
    assert_eq!(m.iter_context_objects(&left), vec![10, X, A]);
    assert_eq!(m.iter_context_objects(&right), vec![20, X, A]);
    assert_eq!(m.iter_context_objects(&parent), vec![X, A]);
    m.push_application(30);
    assert_eq!(m.iter_context_objects(&left), vec![30, 10, X, A]);
    assert_eq!(m.iter_context_objects(&right), vec![30, 20, X, A]);
}

#[test]
fn old_snapshot_stays_valid_after_push() {
    let mut m = ContextStackManager::new();
    let mut ctx = m.new_context();
    m.push_context(&mut ctx, A);
    let saved = ContextStackManager::fork_context(&ctx);
    m.push_context(&mut ctx, B);
    assert_eq!(m.iter_context_objects(&saved), vec![A]);
    assert_eq!(m.iter_context_objects(&ctx), vec![B, A]);
}
