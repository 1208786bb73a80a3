use near_sdk::{
    promise_and_declaration,
    Env, FunctionCallOpts, GasWeight, HostCall, Promise, PromiseAction, PromiseBuilder,
    PromiseOrValue,
};

fn account(name: &str) -> String {
    name.to_string()
}

#[test]
fn builder_schedules_actions_in_order() {
    let bob = account("bob_near");
    let pk: Vec<u8> = vec![0, 1, 2, 3];
    let mut env = Env::new();
    let index = PromiseBuilder::new(&bob)
        .create_account()
        .transfer(1000)
        .add_full_access_key(&pk)
        .schedule(&mut env);
    assert_eq!(index, 0);
    assert_eq!(
        env.calls(),
        &vec![
            HostCall::BatchCreate { account_id: &bob },
            HostCall::BatchAction { promise_index: 0, action: PromiseAction::CreateAccount },
            HostCall::BatchAction {
                promise_index: 0,
                action: PromiseAction::Transfer { amount: 1000 },
            },
            HostCall::BatchAction {
                promise_index: 0,
                action: PromiseAction::AddFullAccessKey { public_key: &pk, nonce: 0 },
            },
            HostCall::Return { promise_index: 0 },
        ]
    );
}

#[test]
fn function_call_without_options_takes_defaults() {
    let bob = account("bob_near");
    let mut env = Env::new();
    let builder: PromiseBuilder<'_, u64> =
        PromiseBuilder::new(&bob).function_call("b", vec![7, 8], FunctionCallOpts::default());
    builder.schedule(&mut env);
    assert_eq!(
        env.calls()[1],
        HostCall::BatchAction {
            promise_index: 0,
            action: PromiseAction::FunctionCallWeight {
                function_name: "b",
                arguments: vec![7, 8],
                amount: 0,
                gas: 0,
                weight: GasWeight(1),
            },
        }
    );
}

#[test]
fn function_call_with_options_keeps_them() {
    let bob = account("bob_near");
    let mut env = Env::new();
    let opts = FunctionCallOpts {
        deposit: Some(5),
        static_gas: Some(30_000_000_000_000),
        gas_weight: Some(GasWeight(3)),
    };
    let builder: PromiseBuilder<'_, ()> = PromiseBuilder::new(&bob).function_call("f", vec![], opts);
    builder.schedule(&mut env);
    assert_eq!(
        env.calls()[1],
        HostCall::BatchAction {
            promise_index: 0,
            action: PromiseAction::FunctionCallWeight {
                function_name: "f",
                arguments: vec![],
                amount: 5,
                gas: 30_000_000_000_000,
                weight: GasWeight(3),
            },
        }
    );
}

#[test]
fn function_call_opts_default_is_empty() {
    let opts = FunctionCallOpts::default();
    assert_eq!(opts, FunctionCallOpts { deposit: None, static_gas: None, gas_weight: None });
}

#[test]
fn every_action_kind_is_recorded() {
    let alice = account("alice.near");
    let carol = account("carol.near");
    let pk: Vec<u8> = vec![9, 9];
    let code: Vec<u8> = vec![0, 97, 115, 109];
    let mut env = Env::new();
    PromiseBuilder::new(&alice)
        .deploy_contract(&code)
        .stake(10, &pk)
        .add_full_access_key_with_nonce(&pk, 4)
        .add_access_key(&pk, 100, &carol, "method_a,method_b")
        .add_access_key_with_nonce(&pk, 200, &carol, "m", 6)
        .delete_key(&pk)
        .delete_account(&carol)
        .schedule(&mut env);
    let actions: Vec<&PromiseAction> = env
        .calls()
        .iter()
        .filter_map(|call| match call {
            HostCall::BatchAction { promise_index: 0, action } => Some(action),
            _ => None,
        })
        .collect();
    assert_eq!(
        actions,
        vec![
            &PromiseAction::DeployContract { code: &code },
            &PromiseAction::Stake { amount: 10, public_key: &pk },
            &PromiseAction::AddFullAccessKey { public_key: &pk, nonce: 4 },
            &PromiseAction::AddAccessKey {
                public_key: &pk,
                allowance: 100,
                receiver_id: &carol,
                function_names: "method_a,method_b",
                nonce: 0,
            },
            &PromiseAction::AddAccessKey {
                public_key: &pk,
                allowance: 200,
                receiver_id: &carol,
                function_names: "m",
                nonce: 6,
            },
            &PromiseAction::DeleteKey { public_key: &pk },
            &PromiseAction::DeleteAccount { beneficiary_id: &carol },
        ]
    );
    assert_eq!(env.calls().len(), 9);
    assert_eq!(env.calls()[8], HostCall::Return { promise_index: 0 });
}

#[test]
fn then_and_chain_from_the_docs() {
    let bob = account("bob.near");
    let carol = account("carol.near");
    let dave = account("dave.near");
    let eva = account("eva.near");
    let mut env = Env::new();
    let first = PromiseBuilder::new(&bob)
        .create_account()
        .then(&mut env, PromiseBuilder::new(&carol).create_account());
    let merged = first.and(&mut env, PromiseBuilder::new(&dave).create_account());
    let last = merged.then(&mut env, PromiseBuilder::new(&eva).create_account());
    let index = last.schedule(&mut env);
    assert_eq!(index, 4);
    assert_eq!(
        env.calls(),
        &vec![
            HostCall::BatchCreate { account_id: &bob },
            HostCall::BatchAction { promise_index: 0, action: PromiseAction::CreateAccount },
            HostCall::BatchThen { after: 0, account_id: &carol },
            HostCall::BatchAction { promise_index: 1, action: PromiseAction::CreateAccount },
            HostCall::BatchCreate { account_id: &dave },
            HostCall::BatchAction { promise_index: 2, action: PromiseAction::CreateAccount },
            HostCall::And { promise_indices: vec![1, 2] },
            HostCall::BatchThen { after: 3, account_id: &eva },
            HostCall::BatchAction { promise_index: 4, action: PromiseAction::CreateAccount },
        ]
    );
}

#[test]
fn and_chain_lists_promises_in_merge_order() {
    let a = account("a.near");
    let b = account("b.near");
    let c = account("c.near");
    let mut env = Env::new();
    let index = PromiseBuilder::new(&a)
        .create_account()
        .and(&mut env, PromiseBuilder::new(&b))
        .and(&mut env, PromiseBuilder::new(&c))
        .schedule(&mut env);
    assert_eq!(index, 3);
    assert_eq!(env.calls().last(), Some(&HostCall::And { promise_indices: vec![0, 1, 2] }));
}

#[test]
fn and_of_a_merged_promise_is_flattened() {
    let a = account("a.near");
    let b = account("b.near");
    let c = account("c.near");
    let mut env = Env::new();
    let inner = PromiseBuilder::new(&b).and(&mut env, PromiseBuilder::new(&c));
    let index = PromiseBuilder::new(&a).and(&mut env, inner).schedule(&mut env);
    assert_eq!(index, 3);
    assert_eq!(env.calls().last(), Some(&HostCall::And { promise_indices: vec![2, 0, 1] }));
}

#[test]
fn then_promise_merged_with_and() {
    let a = account("a.near");
    let b = account("b.near");
    let c = account("c.near");
    let mut env = Env::new();
    let chained = PromiseBuilder::new(&b).then(&mut env, PromiseBuilder::new(&c));
    let index = PromiseBuilder::new(&a).and(&mut env, chained).schedule(&mut env);
    assert_eq!(index, 3);
    assert_eq!(
        env.calls(),
        &vec![
            HostCall::BatchCreate { account_id: &b },
            HostCall::BatchCreate { account_id: &a },
            HostCall::BatchThen { after: 0, account_id: &c },
            HostCall::And { promise_indices: vec![1, 2] },
        ]
    );
}

#[test]
fn then_after_then() {
    let a = account("a.near");
    let b = account("b.near");
    let c = account("c.near");
    let mut env = Env::new();
    let index = PromiseBuilder::new(&a)
        .then(&mut env, PromiseBuilder::new(&b))
        .then(&mut env, PromiseBuilder::new(&c))
        .schedule(&mut env);
    assert_eq!(index, 2);
    assert_eq!(
        env.calls(),
        &vec![
            HostCall::BatchCreate { account_id: &a },
            HostCall::BatchThen { after: 0, account_id: &b },
            HostCall::BatchThen { after: 1, account_id: &c },
        ]
    );
}

#[test]
fn schedule_as_return_marks_the_result() {
    let bob = account("bob_near");
    let carol = account("carol_near");
    let mut env = Env::new();
    PromiseBuilder::new(&carol).schedule(&mut env);
    let promise = PromiseBuilder::new(&bob).transfer(1).schedule_as_return(&mut env);
    assert_eq!(promise.index, 1);
    assert_eq!(promise.index(), 1);
    assert_eq!(env.calls().last(), Some(&HostCall::Return { promise_index: 1 }));
}

#[test]
fn schedule_as_return_of_then() {
    let a = account("a.near");
    let b = account("b.near");
    let mut env = Env::new();
    let then_promise = PromiseBuilder::new(&a)
        .then(&mut env, PromiseBuilder::new(&b))
        .schedule_as_return(&mut env);
    assert_eq!(then_promise.index, 1);
    assert_eq!(env.calls().last(), Some(&HostCall::Return { promise_index: 1 }));
    assert_eq!(env.calls().len(), 3);
}

#[test]
fn deprecated_new_builds_the_same_promise() {
    let bob = account("bob_near");
    let mut env = Env::new();
    let index = Promise::new(&bob).create_account().schedule(&mut env);
    assert_eq!(index, 0);
    assert_eq!(
        env.calls(),
        &vec![
            HostCall::BatchCreate { account_id: &bob },
            HostCall::BatchAction { promise_index: 0, action: PromiseAction::CreateAccount },
            HostCall::Return { promise_index: 0 },
        ]
    );
}

#[test]
fn promise_or_value_from_promise() {
    let bob = account("bob_near");
    let mut env = Env::new();
    let promise = PromiseBuilder::new(&bob).schedule_as_return(&mut env);
    let value: PromiseOrValue<()> = PromiseOrValue::from(promise);
    match value {
        PromiseOrValue::Promise(p) => assert_eq!(p.index, 0),
        PromiseOrValue::Value(_) => panic!("expected a promise"),
    }
}

#[test]
fn promise_or_value_flattens_a_value() {
    let nested: PromiseOrValue<PromiseOrValue<bool>> =
        PromiseOrValue::Value(PromiseOrValue::Value(true));
    match PromiseOrValue::<bool>::from(nested) {
        PromiseOrValue::Value(v) => assert!(v),
        PromiseOrValue::Promise(_) => panic!("expected a value"),
    }
}

#[test]
fn promise_or_value_flattens_a_promise() {
    let bob = account("bob_near");
    let carol = account("carol_near");
    let mut env = Env::new();
    PromiseBuilder::new(&carol).schedule(&mut env);
    let inner: Promise<()> = PromiseBuilder::new(&bob).schedule_as_return(&mut env);
    let nested: PromiseOrValue<PromiseOrValue<()>> =
        PromiseOrValue::Value(PromiseOrValue::Promise(inner));
    match PromiseOrValue::<()>::from(nested) {
        PromiseOrValue::Promise(p) => assert_eq!(p.index, 1),
        PromiseOrValue::Value(_) => panic!("expected a promise"),
    }
}

#[test]
fn promise_of_promise_or_value_keeps_its_index() {
    let bob = account("bob_near");
    let carol = account("carol_near");
    let mut env = Env::new();
    PromiseBuilder::new(&carol).schedule(&mut env);
    let builder: PromiseBuilder<'_, PromiseOrValue<u8>> =
        PromiseBuilder::new(&bob).function_call("f", vec![], FunctionCallOpts::default());
    let promise = builder.schedule_as_return(&mut env);
    let flat: Promise<u8> = Promise::from(promise);
    assert_eq!(flat.index, 1);
    let builder: PromiseBuilder<'_, PromiseOrValue<u8>> =
        PromiseBuilder::new(&bob).function_call("g", vec![], FunctionCallOpts::default());
    let promise = builder.schedule_as_return(&mut env);
    match PromiseOrValue::<u8>::from(promise) {
        PromiseOrValue::Promise(p) => assert_eq!(p.index, 2),
        PromiseOrValue::Value(_) => panic!("expected a promise"),
    }
}

#[test]
fn promise_or_value_of_a_then_promise_is_returned() {
    let a = account("a.near");
    let b = account("b.near");
    let mut env = Env::new();
    let chained = PromiseBuilder::new(&a).then(&mut env, PromiseBuilder::new(&b));
    match PromiseOrValue::from_then(&mut env, chained) {
        PromiseOrValue::Promise(p) => assert_eq!(p.index, 1),
        PromiseOrValue::Value(_) => panic!("expected a promise"),
    }
    assert_eq!(env.calls().last(), Some(&HostCall::Return { promise_index: 1 }));
}

#[test]
fn env_hands_out_consecutive_indices() {
    let a = account("a.near");
    let b = account("b.near");
    let mut env = Env::new();
    assert_eq!(env.promise_batch_create(&a), 0);
    env.promise_batch_action_transfer(0, 3);
    assert_eq!(env.promise_batch_then(0, &b), 1);
    assert_eq!(env.promise_and(vec![0, 1]), 2);
    env.promise_return(2);
    assert_eq!(env.promise_batch_create(&b), 3);
    assert_eq!(env.calls().len(), 6);
}

#[test]
fn schedule_and_schedule_as_return_make_the_same_calls() {
    let bob = account("bob_near");
    let mut scheduled = Env::new();
    let index = PromiseBuilder::new(&bob).create_account().transfer(2).schedule(&mut scheduled);
    let mut returned = Env::new();
    let promise = PromiseBuilder::new(&bob).create_account().transfer(2).schedule_as_return(&mut returned);
    assert_eq!(index, promise.index());
    assert_eq!(scheduled.calls(), returned.calls());
    assert_eq!(scheduled.calls().last(), Some(&HostCall::Return { promise_index: 0 }));
    assert_eq!(scheduled.calls().len(), 4);
}

#[test]
fn merging_a_merged_promise_records_no_call() {
    let a = account("a.near");
    let b = account("b.near");
    let c = account("c.near");
    let mut env = Env::new();
    let inner = PromiseBuilder::new(&a).and(&mut env, PromiseBuilder::new(&b));
    let before = env.calls().len();
    let merged = PromiseBuilder::new(&c).and(&mut env, inner);
    assert_eq!(env.calls().len(), before + 1);
    assert_eq!(env.calls().last(), Some(&HostCall::BatchCreate { account_id: &c }));
    merged.schedule(&mut env);
    assert_eq!(env.calls().last(), Some(&HostCall::And { promise_indices: vec![2, 0, 1] }));
}

#[test]
fn batch_actions_come_right_after_their_batch() {
    let a = account("a.near");
    let b = account("b.near");
    let mut env = Env::new();
    PromiseBuilder::new(&a)
        .transfer(1)
        .and(&mut env, PromiseBuilder::new(&b).transfer(2))
        .schedule(&mut env);
    assert_eq!(
        env.calls(),
        &vec![
            HostCall::BatchCreate { account_id: &a },
            HostCall::BatchAction { promise_index: 0, action: PromiseAction::Transfer { amount: 1 } },
            HostCall::BatchCreate { account_id: &b },
            HostCall::BatchAction { promise_index: 1, action: PromiseAction::Transfer { amount: 2 } },
            HostCall::And { promise_indices: vec![0, 1] },
        ]
    );
}

#[test]
fn then_promise_schedule_does_not_return() {
    let a = account("a.near");
    let b = account("b.near");
    let mut env = Env::new();
    let index = PromiseBuilder::new(&a)
        .then(&mut env, PromiseBuilder::new(&b).create_account())
        .schedule(&mut env);
    assert_eq!(index, 1);
    assert_eq!(env.calls().len(), 3);
    assert_eq!(
        env.calls().last(),
        Some(&HostCall::BatchAction { promise_index: 1, action: PromiseAction::CreateAccount })
    );
}

#[test]
fn promise_and_declaration_names_both_sides() {
    assert_eq!(promise_and_declaration("u8", "bool"), "PromiseAnd<u8, bool>");
    assert_eq!(
        promise_and_declaration("PromiseAnd<u8, u8>", "String"),
        "PromiseAnd<PromiseAnd<u8, u8>, String>"
    );
}
