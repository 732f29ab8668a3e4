//! The context access guard on its own.

use wasm_jit::safe_context::{ContextOwner, ContractViolation};

struct Context {
    id: u32,
}

#[test]
fn fresh_owner_counts_itself() {
    let context = Context { id: 1 };
    let owner = ContextOwner::new(&context);
    assert_eq!(owner.reference_count(), 1);
    assert_eq!(owner.teardown(), Ok(()));
}

#[test]
fn handle_reads_the_owners_context() {
    let context = Context { id: 77 };
    let mut owner = ContextOwner::new(&context);
    let handle = owner.handle();
    assert_eq!(handle.get().id, 77);
    assert!(std::ptr::eq(handle.get(), &context));
    let copy = owner.clone_handle(&handle);
    assert!(std::ptr::eq(copy.get(), &context));
    owner.release(copy);
    owner.release(handle);
    assert_eq!(owner.teardown(), Ok(()));
}

#[test]
fn each_handle_raises_the_counter_and_each_release_lowers_it() {
    let context = Context { id: 1 };
    let mut owner = ContextOwner::new(&context);
    let first = owner.handle();
    assert_eq!(owner.reference_count(), 2);
    let second = owner.clone_handle(&first);
    assert_eq!(owner.reference_count(), 3);
    let third = owner.handle();
    assert_eq!(owner.reference_count(), 4);
    owner.release(second);
    assert_eq!(owner.reference_count(), 3);
    owner.release(first);
    owner.release(third);
    assert_eq!(owner.reference_count(), 1);
}

#[test]
fn teardown_with_a_live_handle_is_a_contract_violation() {
    let context = Context { id: 1 };
    let mut owner = ContextOwner::new(&context);
    let handle = owner.handle();
    let copy = owner.clone_handle(&handle);
    owner.release(handle);
    assert_eq!(owner.teardown(), Err(ContractViolation { references: 2 }));
    assert_eq!(copy.get().id, 1);
}

#[test]
fn teardown_reports_how_many_references_it_found() {
    let context = Context { id: 1 };
    let mut owner = ContextOwner::new(&context);
    let _a = owner.handle();
    let _b = owner.handle();
    let _c = owner.handle();
    assert_eq!(owner.teardown(), Err(ContractViolation { references: 4 }));
}

#[test]
fn teardown_after_all_handles_are_back_is_in_order() {
    let context = Context { id: 1 };
    let mut owner = ContextOwner::new(&context);
    for _ in 0..100 {
        let handle = owner.handle();
        owner.release(handle);
    }
    assert_eq!(owner.reference_count(), 1);
    assert_eq!(owner.teardown(), Ok(()));
}
