use vstd::prelude::*;

use crate::env::{EnvView, HostCall, PromiseAction, PromiseRecord, action_calls};
use crate::promise::{
    FunctionCallOpts, PromiseAnd, PromiseBuilder, PromiseBuilderView, PromiseOrValue, PromiseThen, SchedulablePromise, flatten,
    lemma_flatten_promise_index,
};
use crate::types::{GasWeight, PromiseIndex};

verus! {

/// Merging promises one after another, as in `a.and(b).and(c)`, lists their promises in
/// the order they were merged: `a`, `b` and `c` are scheduled as three consecutive batch
/// promises, each on its own account with its own actions, each batch's calls coming
/// whole before the next batch's, and the joint promise is made of exactly those three,
/// in that order.
pub proof fn lemma_and_chain_order<'a, A, B, C>(
    env: EnvView<'a>,
    a: PromiseBuilder<'a, A>,
    b: PromiseBuilder<'a, B>,
    c: PromiseBuilder<'a, C>,
)
    ensures
        ({
            let n = env.next_index();
            let env1 = env.with_batch(a@.account_id@, None, a@.actions);
            let ab = seq![n as PromiseIndex] + b.indices_in(env1);
            let env2 = b.scheduled_into(env1);
            let abc = ab + c.indices_in(env2);
            let env3 = c.scheduled_into(env2);
            let calls = a.scheduled_calls(env) + b.scheduled_calls(env1) + c.scheduled_calls(env2);
            &&& calls == a@.batch_calls(None, n as PromiseIndex) + b@.batch_calls(
                None,
                (n + 1) as PromiseIndex,
            ) + c@.batch_calls(None, (n + 2) as PromiseIndex)
            &&& abc == seq![n as PromiseIndex, (n + 1) as PromiseIndex, (n + 2) as PromiseIndex]
            &&& env3.promises.len() == n + 3
            &&& env3.promises[n as int] == PromiseRecord::Batch {
                account_id: a@.account_id@,
                after: None,
                actions: a@.actions,
            }
            &&& env3.promises[n + 1int] == PromiseRecord::Batch {
                account_id: b@.account_id@,
                after: None,
                actions: b@.actions,
            }
            &&& env3.promises[n + 2int] == PromiseRecord::Batch {
                account_id: c@.account_id@,
                after: None,
                actions: c@.actions,
            }
        }),
{
    let n = env.next_index();
    let env1 = env.with_batch(a@.account_id@, None, a@.actions);
    let env2 = b.scheduled_into(env1);
    let ab = seq![n as PromiseIndex] + b.indices_in(env1);
    let abc = ab + c.indices_in(env2);
    assert(abc =~= seq![n as PromiseIndex, (n + 1) as PromiseIndex, (n + 2) as PromiseIndex]);
}

/// Chaining with `then` makes the second batch wait for the first: after
/// `a.then(b)` is scheduled, `a` is a batch that waits for nothing, and `b` is the batch
/// right after it that runs once `a` completes.
pub proof fn lemma_then_waits_for_first<'a, A, B>(
    env: EnvView<'a>,
    a: PromiseBuilder<'a, A>,
    chained: PromiseThen<'a, B>,
    b: PromiseBuilder<'a, B>,
)
    requires
        chained@.after == env.next_index(),
        chained@.inner == b@,
    ensures
        ({
            let n = env.next_index();
            let env2 = chained.scheduled_into(env.with_batch(a@.account_id@, None, a@.actions));
            &&& env2.promises.len() == n + 2
            &&& env2.promises[n as int] == PromiseRecord::Batch {
                account_id: a@.account_id@,
                after: None,
                actions: a@.actions,
            }
            &&& env2.promises[n + 1int] == PromiseRecord::Batch {
                account_id: b@.account_id@,
                after: Some(n as PromiseIndex),
                actions: b@.actions,
            }
        }),
{
}

/// Flattening a promise-or-value of a promise-or-value, as `PromiseOrValue::from` does,
/// returns an inner value unchanged, and keeps a promise's index.
pub proof fn lemma_flatten<T>(s: PromiseOrValue<PromiseOrValue<T>>)
    ensures
        s matches PromiseOrValue::Value(v) ==> flatten(s) == v,
        s matches PromiseOrValue::Promise(p) ==> (flatten(s) matches PromiseOrValue::Promise(q)
            && q@ == p@),
{
    if let PromiseOrValue::Promise(p) = s {
        lemma_flatten_promise_index(p);
    }
}

/// A builder step only appends: the account stays, and the earlier actions stay first,
/// in order.
pub proof fn lemma_builder_step_grows<'a>(builder: PromiseBuilderView<'a>, action: PromiseAction<'a>)
    ensures
        builder.with_action(action).grows_from(builder),
{
    assert(builder.actions.push(action).take(builder.actions.len() as int) =~= builder.actions);
}

/// A chain of builder steps only appends: growth composes.
pub proof fn lemma_builder_grows_transitive<'a>(
    c: PromiseBuilderView<'a>,
    b: PromiseBuilderView<'a>,
    a: PromiseBuilderView<'a>,
)
    requires
        c.grows_from(b),
        b.grows_from(a),
    ensures
        c.grows_from(a),
{
    assert(c.actions.take(a.actions.len() as int) =~= c.actions.take(b.actions.len() as int).take(
        a.actions.len() as int,
    ));
}

/// The options of a function call give its deposit, static gas and weight exactly where
/// they are given, each independently of the others; what is left out is no deposit, no
/// static gas, and a weight of one.
pub proof fn lemma_function_call_options(opts: FunctionCallOpts)
    ensures
        (opts.deposit matches Some(d) ==> opts.spec_amount() == d),
        (opts.deposit is None ==> opts.spec_amount() == 0),
        (opts.static_gas matches Some(g) ==> opts.spec_gas() == g),
        (opts.static_gas is None ==> opts.spec_gas() == 0),
        (opts.gas_weight matches Some(w) ==> opts.spec_weight() == w),
        (opts.gas_weight is None ==> opts.spec_weight() == GasWeight(1)),
{
}

/// Merging an already merged promise, in any state, lists every one of its indices in
/// the order they were merged, creates no promise and records no call: merges stay flat,
/// whatever their length.
pub proof fn lemma_merged_promise_flattens<'a, L, R>(merged: PromiseAnd<L, R>, env: EnvView<'a>)
    ensures
        merged.indices_in(env) == merged@,
        merged.scheduled_into(env) == env,
        merged.scheduled_calls(env) == Seq::<HostCall<'a>>::empty(),
{
}

/// Scheduling a builder, in any state, creates one batch at the next index, on its
/// account, waiting for nothing, holding exactly its actions in order; every earlier
/// promise and the call's result stay as they were. The calls are the batch's creation
/// and then one action call per action, in order, on that index; the index merged is
/// that of the new batch.
pub proof fn lemma_builder_schedules_its_batch<'a, T>(builder: PromiseBuilder<'a, T>, env: EnvView<'a>)
    ensures
        ({
            let n = env.next_index();
            let view = builder@;
            let next = builder.scheduled_into(env);
            let calls = builder.scheduled_calls(env);
            let listed = builder.indices_in(env);
            &&& next.promises.len() == n + 1
            &&& forall|i: int| 0 <= i < n ==> next.promises[i] == env.promises[i]
            &&& next.promises[n as int] == PromiseRecord::Batch {
                account_id: view.account_id@,
                after: None,
                actions: view.actions,
            }
            &&& next.returned == env.returned
            &&& next.refused == env.refused
            &&& calls.len() == view.actions.len() + 1
            &&& calls[0] == HostCall::BatchCreate { account_id: view.account_id }
            &&& forall|k: int|
                0 <= k < view.actions.len() ==> calls[k + 1] == HostCall::BatchAction {
                    promise_index: n as PromiseIndex,
                    action: view.actions[k],
                }
            &&& listed == seq![n as PromiseIndex]
        }),
{
    let n = env.next_index();
    let view = builder@;
    let calls = builder.scheduled_calls(env);
    assert forall|k: int| 0 <= k < view.actions.len() implies calls[k + 1] == HostCall::BatchAction {
        promise_index: n as PromiseIndex,
        action: view.actions[k],
    } by {
        assert(calls[k + 1] == action_calls(n as PromiseIndex, view.actions)[k]);
    }
}

/// Scheduling a chained promise, in any state, creates one batch at the next index, on
/// its inner account, waiting for the promise it was chained to, holding exactly its
/// inner actions in order, wherever that promise stands; every earlier promise and the
/// call's result stay as they were. The calls are the batch's creation after that promise
/// and then one action call per action, in order, on the new index; the index merged is
/// that of the new batch, never that of the promise it waits for.
pub proof fn lemma_chained_promise_schedules_its_batch<'a, T>(
    chained: PromiseThen<'a, T>,
    env: EnvView<'a>,
)
    ensures
        ({
            let n = env.next_index();
            let after = chained@.after;
            let inner = chained@.inner;
            let next = chained.scheduled_into(env);
            let calls = chained.scheduled_calls(env);
            let listed = chained.indices_in(env);
            &&& next.promises.len() == n + 1
            &&& forall|i: int| 0 <= i < n ==> next.promises[i] == env.promises[i]
            &&& next.promises[n as int] == PromiseRecord::Batch {
                account_id: inner.account_id@,
                after: Some(after),
                actions: inner.actions,
            }
            &&& next.returned == env.returned
            &&& next.refused == env.refused
            &&& calls.len() == inner.actions.len() + 1
            &&& calls[0] == HostCall::BatchThen { after, account_id: inner.account_id }
            &&& forall|k: int|
                0 <= k < inner.actions.len() ==> calls[k + 1] == HostCall::BatchAction {
                    promise_index: n as PromiseIndex,
                    action: inner.actions[k],
                }
            &&& listed == seq![n as PromiseIndex]
        }),
{
    let n = env.next_index();
    let inner = chained@.inner;
    let calls = chained.scheduled_calls(env);
    assert forall|k: int| 0 <= k < inner.actions.len() implies calls[k + 1] == HostCall::BatchAction {
        promise_index: n as PromiseIndex,
        action: inner.actions[k],
    } by {
        assert(calls[k + 1] == action_calls(n as PromiseIndex, inner.actions)[k]);
    }
}

/// Making a batch promise the call's result sets it; making a joint promise the result
/// is refused by the host, which aborts the call, and the result stays as it was. No
/// promise changes either way.
pub proof fn lemma_return_batch_or_refuse<'a>(env: EnvView<'a>, index: PromiseIndex)
    requires
        env.contains(index),
    ensures
        env.with_return(index).promises == env.promises,
        env.promises[index as int] is Batch ==> env.with_return(index).returned == Some(index)
            && env.with_return(index).refused == env.refused,
        env.promises[index as int] is Joint ==> env.with_return(index).returned == env.returned
            && env.with_return(index).refused,
{
}

} // verus!
