use std::marker::PhantomData;

use vstd::prelude::*;

use crate::env::{
    Env, EnvView, HostCall, PromiseAction, action_calls, joins, lemma_with_batch_extends,
};
use crate::sealed::Sealed;
use crate::types::{AccountId, Balance, Gas, GasWeight, NoReturn, PromiseIndex, PublicKey};

verus! {

/// Types that can be scheduled through [`PromiseBuilder::and`] and the other promise
/// equivalents.
pub trait SchedulablePromise<'a, T>: Sealed {
    /// Whether every promise this one refers to exists in `env`.
    spec fn ready(&self, env: EnvView<'a>) -> bool;

    /// The promises once this one is scheduled into `env`.
    spec fn scheduled_into(&self, env: EnvView<'a>) -> EnvView<'a>;

    /// The host calls that schedule this promise into `env`, in order.
    spec fn scheduled_calls(&self, env: EnvView<'a>) -> Seq<HostCall<'a>>;

    /// The indices this promise adds to a joint promise when scheduled into `env`.
    spec fn indices_in(&self, env: EnvView<'a>) -> Seq<PromiseIndex>;

    /// Readiness survives any later growth of the promises.
    proof fn lemma_ready_extends(&self, earlier: EnvView<'a>, later: EnvView<'a>)
        requires
            self.ready(earlier),
            later.extends(earlier),
        ensures
            self.ready(later),
    ;

    fn append_to_promises(self, env: &mut Env<'a>, promises: &mut Vec<PromiseIndex>)
        requires
            old(env).wf(),
            self.ready(old(env)@),
        ensures
            final(env).wf(),
            final(env)@ == self.scheduled_into(old(env)@),
            final(env).log() == old(env).log() + self.scheduled_calls(old(env)@),
            final(env)@.extends(old(env)@),
            final(promises)@ == old(promises)@ + self.indices_in(old(env)@),
            self.indices_in(old(env)@).len() >= 1,
            forall|k: int|
                0 <= k < self.indices_in(old(env)@).len() ==> final(env)@.contains(
                    #[trigger] self.indices_in(old(env)@)[k],
                ),
    ;
}

/// What a [`PromiseBuilder`] holds: the account it acts on and its actions, in order.
pub struct PromiseBuilderView<'a> {
    pub account_id: &'a AccountId,
    pub actions: Seq<PromiseAction<'a>>,
}

impl<'a> PromiseBuilderView<'a> {
    /// The same builder with `action` added last.
    pub open spec fn with_action(self, action: PromiseAction<'a>) -> Self {
        PromiseBuilderView { account_id: self.account_id, actions: self.actions.push(action) }
    }

    /// Whether `self` is `earlier` with zero or more actions added after its own: the same
    /// account, and `earlier`'s actions first, in order.
    pub open spec fn grows_from(self, earlier: PromiseBuilderView<'a>) -> bool {
        &&& self.account_id == earlier.account_id
        &&& earlier.actions.len() <= self.actions.len()
        &&& self.actions.take(earlier.actions.len() as int) == earlier.actions
    }

    /// The host calls that create this batch, as promise `index` waiting for `after`
    /// where there is one, then append its actions to it in order.
    pub open spec fn batch_calls(self, after: Option<PromiseIndex>, index: PromiseIndex) -> Seq<
        HostCall<'a>,
    > {
        let create = match after {
            Some(a) => HostCall::BatchThen { after: a, account_id: self.account_id },
            None => HostCall::BatchCreate { account_id: self.account_id },
        };
        seq![create] + action_calls(index, self.actions)
    }
}

/// A batch of actions on one account, to be scheduled as one promise.
///
/// Smart contract developers use it to create a transaction with one or many actions, e.g.
/// creating an account, transferring tokens to it and adding a key, or to call a method
/// of another contract.
#[must_use]
#[derive(Debug)]
pub struct PromiseBuilder<'a, T = NoReturn> {
    account_id: &'a AccountId,
    actions: Vec<PromiseAction<'a>>,
    _marker: PhantomData<T>,
}

impl<'a, T> View for PromiseBuilder<'a, T> {
    type V = PromiseBuilderView<'a>;

    closed spec fn view(&self) -> PromiseBuilderView<'a> {
        PromiseBuilderView { account_id: self.account_id, actions: self.actions@ }
    }
}

/// Options of a function call; what is left out takes a default.
#[derive(Debug, PartialEq, Eq)]
pub struct FunctionCallOpts {
    pub deposit: Option<Balance>,
    pub static_gas: Option<Gas>,
    pub gas_weight: Option<GasWeight>,
}

impl Default for FunctionCallOpts {
    fn default() -> (opts: Self)
        ensures
            opts.deposit is None,
            opts.static_gas is None,
            opts.gas_weight is None,
    {
        FunctionCallOpts { deposit: None, static_gas: None, gas_weight: None }
    }
}

impl FunctionCallOpts {
    /// The attached deposit: zero where none is given.
    pub open spec fn spec_amount(self) -> Balance {
        match self.deposit {
            Some(d) => d,
            None => 0,
        }
    }

    /// The attached static gas: zero where none is given.
    pub open spec fn spec_gas(self) -> Gas {
        match self.static_gas {
            Some(g) => g,
            None => 0,
        }
    }

    /// The weight of unused gas: one where none is given.
    pub open spec fn spec_weight(self) -> GasWeight {
        match self.gas_weight {
            Some(w) => w,
            None => GasWeight(1),
        }
    }
}

/// Adds the actions of `actions` to the batch promise `promise_index`, just created as the
/// last promise of `env`, in order.
fn add_actions<'a>(
    env: &mut Env<'a>,
    promise_index: PromiseIndex,
    actions: Vec<PromiseAction<'a>>,
    Ghost(base): Ghost<EnvView<'a>>,
    Ghost(account_id): Ghost<Seq<char>>,
    Ghost(after): Ghost<Option<PromiseIndex>>,
)
    requires
        old(env).wf(),
        promise_index == base.next_index(),
        old(env)@ == base.with_batch(account_id, after, Seq::empty()),
    ensures
        final(env).wf(),
        final(env)@ == base.with_batch(account_id, after, actions@),
        final(env).log() == old(env).log() + action_calls(promise_index, actions@),
{
    let ghost all = actions@;
    let ghost log0 = env.log();
    assert(all.take(0) =~= Seq::<PromiseAction<'a>>::empty());
    assert(log0 + action_calls(promise_index, all.take(0)) =~= log0);
    for action in iter: actions
        invariant
            env.wf(),
            promise_index == base.next_index(),
            iter.seq() == all,
            env@ == base.with_batch(account_id, after, all.take(iter.index() as int)),
            env.log() == log0 + action_calls(promise_index, all.take(iter.index() as int)),
    {
        let ghost prefix = all.take(iter.index() as int);
        proof {
            assert(all.take(iter.index() + 1) =~= prefix.push(action));
        }
        action.add(env, promise_index);
        proof {
            assert(base.with_batch(account_id, after, prefix).with_action(promise_index, action).promises
                =~= base.with_batch(account_id, after, prefix.push(action)).promises);
            assert(action_calls(promise_index, prefix.push(action)) =~= action_calls(
                promise_index,
                prefix,
            ).push(HostCall::BatchAction { promise_index, action }));
            assert(env.log() =~= log0 + action_calls(promise_index, prefix.push(action)));
        }
    }
    assert(all.take(all.len() as int) =~= all);
}

impl<'a> PromiseBuilder<'a, NoReturn> {
    /// Create a promise that acts on the given account.
    pub fn new(account_id: &'a AccountId) -> (promise: Self)
        ensures
            promise@ == (PromiseBuilderView::<'a> { account_id, actions: Seq::empty() }),
    {
        let promise = PromiseBuilder { account_id, actions: Vec::new(), _marker: PhantomData };
        assert(promise.actions@ =~= Seq::<PromiseAction<'a>>::empty());
        promise
    }
}

impl<'a, T> PromiseBuilder<'a, T> {
    fn add_action(self, action: PromiseAction<'a>) -> (promise: Self)
        ensures
            promise@ == self@.with_action(action),
    {
        let mut promise = self;
        promise.actions.push(action);
        promise
    }

    /// Create account on which this promise acts.
    pub fn create_account(self) -> (promise: Self)
        ensures
            promise@ == self@.with_action(PromiseAction::CreateAccount),
    {
        self.add_action(PromiseAction::CreateAccount)
    }

    /// Deploy a smart contract to the account on which this promise acts.
    pub fn deploy_contract(self, code: &'a [u8]) -> (promise: Self)
        ensures
            promise@ == self@.with_action(PromiseAction::DeployContract { code }),
    {
        self.add_action(PromiseAction::DeployContract { code })
    }

    /// A low-level interface for making a function call to the account that this promise
    /// acts on. No deposit and no static gas are attached unless `opts` gives them, and the
    /// weight of unused gas is one unless `opts` gives it.
    pub fn function_call<F>(
        self,
        function_name: &'a str,
        arguments: Vec<u8>,
        opts: FunctionCallOpts,
    ) -> (promise: PromiseBuilder<'a, F>)
        ensures
            promise@ == self@.with_action(
                PromiseAction::FunctionCallWeight {
                    function_name,
                    arguments,
                    amount: opts.spec_amount(),
                    gas: opts.spec_gas(),
                    weight: opts.spec_weight(),
                },
            ),
            promise@.account_id == self@.account_id,
            promise@.actions.len() == self@.actions.len() + 1,
            promise@.actions.drop_last() == self@.actions,
            (promise@.actions.last() matches PromiseAction::FunctionCallWeight {
                function_name: name,
                arguments: args,
                amount,
                gas,
                weight,
            } && name == function_name && args == arguments && (opts.deposit matches Some(d)
                ==> amount == d) && (opts.deposit is None ==> amount == 0) && (
            opts.static_gas matches Some(g) ==> gas == g) && (opts.static_gas is None ==> gas
                == 0) && (opts.gas_weight matches Some(w) ==> weight == w) && (opts.gas_weight is None
                ==> weight == GasWeight(1))),
    {
        let ghost before = self@;
        let PromiseBuilder { account_id, actions, _marker: _ } = self.add_action(
            PromiseAction::FunctionCallWeight {
                function_name,
                arguments,
                amount: opts.deposit.unwrap_or(0),
                gas: opts.static_gas.unwrap_or(0),
                weight: opts.gas_weight.unwrap_or(GasWeight(1)),
            },
        );
        assert(actions@.drop_last() =~= before.actions);
        PromiseBuilder { account_id, actions, _marker: PhantomData }
    }

    /// Transfer tokens to the account that this promise acts on.
    pub fn transfer(self, amount: Balance) -> (promise: Self)
        ensures
            promise@ == self@.with_action(PromiseAction::Transfer { amount }),
    {
        self.add_action(PromiseAction::Transfer { amount })
    }

    /// Stake the account for the given amount of tokens using the given public key.
    pub fn stake(self, amount: Balance, public_key: &'a PublicKey) -> (promise: Self)
        ensures
            promise@ == self@.with_action(PromiseAction::Stake { amount, public_key }),
    {
        self.add_action(PromiseAction::Stake { amount, public_key })
    }

    /// Add full access key to the given account, with nonce zero.
    pub fn add_full_access_key(self, public_key: &'a PublicKey) -> (promise: Self)
        ensures
            promise@ == self@.with_action(PromiseAction::AddFullAccessKey { public_key, nonce: 0 }),
    {
        self.add_full_access_key_with_nonce(public_key, 0)
    }

    /// Add full access key to the given account with a provided nonce.
    pub fn add_full_access_key_with_nonce(self, public_key: &'a PublicKey, nonce: u64) -> (promise:
        Self)
        ensures
            promise@ == self@.with_action(PromiseAction::AddFullAccessKey { public_key, nonce }),
    {
        self.add_action(PromiseAction::AddFullAccessKey { public_key, nonce })
    }

    /// Add an access key that is restricted to only calling a smart contract on some account
    /// using only a restricted set of methods, with nonce zero. Here `function_names` is a
    /// comma separated list of methods, e.g. `"method_a,method_b"`.
    pub fn add_access_key(
        self,
        public_key: &'a PublicKey,
        allowance: Balance,
        receiver_id: &'a AccountId,
        function_names: &'a str,
    ) -> (promise: Self)
        ensures
            promise@ == self@.with_action(
                PromiseAction::AddAccessKey {
                    public_key,
                    allowance,
                    receiver_id,
                    function_names,
                    nonce: 0,
                },
            ),
    {
        self.add_access_key_with_nonce(public_key, allowance, receiver_id, function_names, 0)
    }

    /// Add an access key with a provided nonce.
    pub fn add_access_key_with_nonce(
        self,
        public_key: &'a PublicKey,
        allowance: Balance,
        receiver_id: &'a AccountId,
        function_names: &'a str,
        nonce: u64,
    ) -> (promise: Self)
        ensures
            promise@ == self@.with_action(
                PromiseAction::AddAccessKey {
                    public_key,
                    allowance,
                    receiver_id,
                    function_names,
                    nonce,
                },
            ),
    {
        self.add_action(
            PromiseAction::AddAccessKey { public_key, allowance, receiver_id, function_names, nonce },
        )
    }

    /// Delete access key from the given account.
    pub fn delete_key(self, public_key: &'a PublicKey) -> (promise: Self)
        ensures
            promise@ == self@.with_action(PromiseAction::DeleteKey { public_key }),
    {
        self.add_action(PromiseAction::DeleteKey { public_key })
    }

    /// Delete the given account.
    pub fn delete_account(self, beneficiary_id: &'a AccountId) -> (promise: Self)
        ensures
            promise@ == self@.with_action(PromiseAction::DeleteAccount { beneficiary_id }),
    {
        self.add_action(PromiseAction::DeleteAccount { beneficiary_id })
    }

    /// Schedules this promise as one batch promise on its account with its actions, in
    /// the order they were added, at the next promise index; the call's result is left
    /// as it was.
    fn schedule_batch(self, env: &mut Env<'a>) -> (index: PromiseIndex)
        requires
            old(env).wf(),
        ensures
            final(env).wf(),
            index == old(env)@.next_index(),
            final(env)@ == self.scheduled_into(old(env)@),
            final(env).log() == old(env).log() + self@.batch_calls(None, index),
    {
        let ghost base = env@;
        let ghost log0 = env.log();
        let ghost view = self@;
        let promise_index = env.promise_batch_create(self.account_id);
        add_actions(env, promise_index, self.actions, Ghost(base), Ghost(view.account_id@), Ghost(None));
        assert(env.log() =~= log0 + view.batch_calls(None, promise_index));
        promise_index
    }

    /// Schedules this promise, one batch promise on its account with its actions in the
    /// order they were added, at the next promise index, and makes it the result of the
    /// current call: a method that calls `schedule` and one that returns
    /// `schedule_as_return` are equivalent.
    pub fn schedule(self, env: &mut Env<'a>) -> (index: PromiseIndex)
        requires
            old(env).wf(),
        ensures
            final(env).wf(),
            index == old(env)@.next_index(),
            final(env)@ == old(env)@.with_batch(self@.account_id@, None, self@.actions).with_return(
                index,
            ),
            final(env).log() == old(env).log() + self@.batch_calls(None, index) + seq![
                HostCall::Return { promise_index: index },
            ],
    {
        let ghost log0 = env.log();
        let ghost view = self@;
        let index = self.schedule_batch(env);
        env.promise_return(index);
        assert(env.log() =~= log0 + view.batch_calls(None, index) + seq![
            HostCall::Return { promise_index: index },
        ]);
        index
    }

    /// A specialized, relatively low-level API method. Allows to mark the given promise as
    /// the one that should be considered as a return value: the same calls as
    /// `schedule`, returning the promise.
    pub fn schedule_as_return(self, env: &mut Env<'a>) -> (promise: Promise<T>)
        requires
            old(env).wf(),
        ensures
            final(env).wf(),
            promise@ == old(env)@.next_index(),
            final(env)@ == old(env)@.with_batch(self@.account_id@, None, self@.actions).with_return(
                promise@,
            ),
            final(env).log() == old(env).log() + self@.batch_calls(None, promise@) + seq![
                HostCall::Return { promise_index: promise@ },
            ],
    {
        let index = self.schedule(env);
        Promise { index, _marker: PhantomData }
    }

    /// Merge this promise with another promise, so that we can schedule execution of
    /// another smart contract right after all merged promises finish. This promise is
    /// scheduled first, then `other`; the joint promise lists this promise's index, then
    /// those of `other`.
    pub fn and<O>(self, env: &mut Env<'a>, other: impl SchedulablePromise<'a, O>) -> (promise:
        PromiseAnd<T, O>)
        requires
            old(env).wf(),
            other.ready(old(env)@),
        ensures
            final(env).wf(),
            final(env)@ == other.scheduled_into(self.scheduled_into(old(env)@)),
            final(env).log() == old(env).log() + self.scheduled_calls(old(env)@)
                + other.scheduled_calls(self.scheduled_into(old(env)@)),
            final(env)@.extends(old(env)@),
            promise@ == seq![old(env)@.next_index() as PromiseIndex] + other.indices_in(
                self.scheduled_into(old(env)@),
            ),
            promise@.len() >= 2,
            promise.ready(final(env)@),
    {
        let ghost env0 = env@;
        let ghost log0 = env.log();
        let ghost env1 = self.scheduled_into(env0);
        let ghost calls1 = self.scheduled_calls(env0);
        proof {
            lemma_with_batch_extends(env0, self@.account_id@, None, self@.actions);
            other.lemma_ready_extends(env0, env1);
        }
        let index = self.schedule_batch(env);
        let mut promises = Vec::new();
        promises.push(index);
        other.append_to_promises(env, &mut promises);
        proof {
            crate::env::lemma_extends_transitive(env@, env1, env0);
            assert(promises@ == seq![index] + other.indices_in(env1));
            assert(env.log() =~= log0 + calls1 + other.scheduled_calls(env1));
        }
        let promise = PromiseAnd { promises, _marker: PhantomData };
        proof {
            assert forall|k: int| 0 <= k < promise@.len() implies env@.contains(
                #[trigger] promise@[k],
            ) by {
                if k > 0 {
                    assert(promise@[k] == other.indices_in(env1)[k - 1]);
                }
            }
        }
        promise
    }

    /// Schedules execution of another promise right after the current promise finishes
    /// executing: this promise is scheduled now, and `other` is to run after it.
    pub fn then<O>(self, env: &mut Env<'a>, other: PromiseBuilder<'a, O>) -> (promise: PromiseThen<
        'a,
        O,
    >)
        requires
            old(env).wf(),
        ensures
            final(env).wf(),
            final(env)@ == old(env)@.with_batch(self@.account_id@, None, self@.actions),
            final(env).log() == old(env).log() + self@.batch_calls(None, promise@.after),
            promise@ == (PromiseThenView { after: old(env)@.next_index() as PromiseIndex, inner: other@ }),
    {
        PromiseThen { after: self.schedule_batch(env), inner: other }
    }
}

impl<'a, T> Sealed for PromiseBuilder<'a, T> {}

impl<'a, T> SchedulablePromise<'a, T> for PromiseBuilder<'a, T> {
    open spec fn ready(&self, env: EnvView<'a>) -> bool {
        true
    }

    open spec fn scheduled_into(&self, env: EnvView<'a>) -> EnvView<'a> {
        env.with_batch(self@.account_id@, None, self@.actions)
    }

    open spec fn scheduled_calls(&self, env: EnvView<'a>) -> Seq<HostCall<'a>> {
        self@.batch_calls(None, env.next_index() as PromiseIndex)
    }

    open spec fn indices_in(&self, env: EnvView<'a>) -> Seq<PromiseIndex> {
        seq![env.next_index() as PromiseIndex]
    }

    proof fn lemma_ready_extends(&self, earlier: EnvView<'a>, later: EnvView<'a>) {
    }

    fn append_to_promises(self, env: &mut Env<'a>, promises: &mut Vec<PromiseIndex>)
        ensures
            final(env)@ == old(env)@.with_batch(self@.account_id@, None, self@.actions),
            final(env).log() == old(env).log() + self@.batch_calls(
                None,
                old(env)@.next_index() as PromiseIndex,
            ),
            final(promises)@ == old(promises)@.push(old(env)@.next_index() as PromiseIndex),
    {
        let ghost env0 = env@;
        proof {
            lemma_with_batch_extends(env0, self@.account_id@, None, self@.actions);
        }
        let index = self.schedule_batch(env);
        promises.push(index);
        assert(promises@ =~= old(promises)@ + seq![index]);
    }
}

/// What a [`PromiseThen`] holds: the promise it runs after, and the batch to run then.
pub struct PromiseThenView<'a> {
    pub after: PromiseIndex,
    pub inner: PromiseBuilderView<'a>,
}

/// A batch of actions to be scheduled to run after an already scheduled promise.
#[must_use]
#[derive(Debug)]
pub struct PromiseThen<'a, T = NoReturn> {
    after: PromiseIndex,
    inner: PromiseBuilder<'a, T>,
}

impl<'a, T> View for PromiseThen<'a, T> {
    type V = PromiseThenView<'a>;

    closed spec fn view(&self) -> PromiseThenView<'a> {
        PromiseThenView { after: self.after, inner: self.inner@ }
    }
}

impl<'a, T> PromiseThen<'a, T> {
    /// Schedules execution of another promise right after the current promise finishes
    /// executing.
    pub fn then<O>(self, env: &mut Env<'a>, other: PromiseBuilder<'a, O>) -> (promise: PromiseThen<
        'a,
        O,
    >)
        requires
            old(env).wf(),
            self.ready(old(env)@),
        ensures
            final(env).wf(),
            final(env)@ == self.scheduled_into(old(env)@),
            final(env).log() == old(env).log() + self.scheduled_calls(old(env)@),
            promise@ == (PromiseThenView { after: old(env)@.next_index() as PromiseIndex, inner: other@ }),
    {
        PromiseThen { after: self.schedule(env), inner: other }
    }

    /// Merge this promise with another promise: this promise is scheduled first, then
    /// `other`; the joint promise lists this promise's index, then those of `other`.
    pub fn and<O>(self, env: &mut Env<'a>, other: impl SchedulablePromise<'a, O>) -> (promise:
        PromiseAnd<T, O>)
        requires
            old(env).wf(),
            self.ready(old(env)@),
            other.ready(old(env)@),
        ensures
            final(env).wf(),
            final(env)@ == other.scheduled_into(self.scheduled_into(old(env)@)),
            final(env).log() == old(env).log() + self.scheduled_calls(old(env)@)
                + other.scheduled_calls(self.scheduled_into(old(env)@)),
            final(env)@.extends(old(env)@),
            promise@ == seq![old(env)@.next_index() as PromiseIndex] + other.indices_in(
                self.scheduled_into(old(env)@),
            ),
            promise@.len() >= 2,
            promise.ready(final(env)@),
    {
        let ghost env0 = env@;
        let ghost log0 = env.log();
        let ghost env1 = self.scheduled_into(env0);
        let ghost calls1 = self.scheduled_calls(env0);
        proof {
            lemma_with_batch_extends(env0, self@.inner.account_id@, Some(self@.after), self@.inner.actions);
            other.lemma_ready_extends(env0, env1);
        }
        let index = self.schedule(env);
        let mut promises = Vec::new();
        promises.push(index);
        other.append_to_promises(env, &mut promises);
        proof {
            crate::env::lemma_extends_transitive(env@, env1, env0);
            assert(promises@ == seq![index] + other.indices_in(env1));
            assert(env.log() =~= log0 + calls1 + other.scheduled_calls(env1));
        }
        let promise = PromiseAnd { promises, _marker: PhantomData };
        proof {
            assert forall|k: int| 0 <= k < promise@.len() implies env@.contains(
                #[trigger] promise@[k],
            ) by {
                if k > 0 {
                    assert(promise@[k] == other.indices_in(env1)[k - 1]);
                }
            }
        }
        promise
    }

    /// Schedules this promise: one batch promise on the inner account with the inner
    /// actions, in order, that runs after the promise it was chained to.
    pub fn schedule(self, env: &mut Env<'a>) -> (index: PromiseIndex)
        requires
            old(env).wf(),
            self.ready(old(env)@),
        ensures
            final(env).wf(),
            index == old(env)@.next_index(),
            final(env)@ == old(env)@.with_batch(
                self@.inner.account_id@,
                Some(self@.after),
                self@.inner.actions,
            ),
            final(env).log() == old(env).log() + self@.inner.batch_calls(Some(self@.after), index),
    {
        let ghost base = env@;
        let ghost log0 = env.log();
        let ghost view = self@;
        let promise_index = env.promise_batch_then(self.after, self.inner.account_id);
        add_actions(
            env,
            promise_index,
            self.inner.actions,
            Ghost(base),
            Ghost(view.inner.account_id@),
            Ghost(Some(view.after)),
        );
        assert(env.log() =~= log0 + view.inner.batch_calls(Some(view.after), promise_index));
        promise_index
    }

    /// Schedules this promise and marks it as the one whose result is the value returned
    /// by the current call.
    pub fn schedule_as_return(self, env: &mut Env<'a>) -> (promise: Promise<T>)
        requires
            old(env).wf(),
            self.ready(old(env)@),
        ensures
            final(env).wf(),
            promise@ == old(env)@.next_index(),
            final(env)@ == self.scheduled_into(old(env)@).with_return(promise@),
            final(env).log() == old(env).log() + self.scheduled_calls(old(env)@) + seq![
                HostCall::Return { promise_index: promise@ },
            ],
    {
        let ghost log0 = env.log();
        let ghost calls = self.scheduled_calls(env@);
        let index = self.schedule(env);
        env.promise_return(index);
        assert(env.log() =~= log0 + calls + seq![HostCall::Return { promise_index: index }]);
        Promise { index, _marker: PhantomData }
    }
}

impl<'a, T> Sealed for PromiseThen<'a, T> {}

impl<'a, T> SchedulablePromise<'a, T> for PromiseThen<'a, T> {
    open spec fn ready(&self, env: EnvView<'a>) -> bool {
        env.contains(self@.after)
    }

    open spec fn scheduled_into(&self, env: EnvView<'a>) -> EnvView<'a> {
        env.with_batch(self@.inner.account_id@, Some(self@.after), self@.inner.actions)
    }

    open spec fn scheduled_calls(&self, env: EnvView<'a>) -> Seq<HostCall<'a>> {
        self@.inner.batch_calls(Some(self@.after), env.next_index() as PromiseIndex)
    }

    open spec fn indices_in(&self, env: EnvView<'a>) -> Seq<PromiseIndex> {
        seq![env.next_index() as PromiseIndex]
    }

    proof fn lemma_ready_extends(&self, earlier: EnvView<'a>, later: EnvView<'a>) {
    }

    fn append_to_promises(self, env: &mut Env<'a>, promises: &mut Vec<PromiseIndex>)
        ensures
            final(env)@ == old(env)@.with_batch(
                self@.inner.account_id@,
                Some(self@.after),
                self@.inner.actions,
            ),
            final(env).log() == old(env).log() + self@.inner.batch_calls(
                Some(self@.after),
                old(env)@.next_index() as PromiseIndex,
            ),
            final(promises)@ == old(promises)@.push(old(env)@.next_index() as PromiseIndex),
    {
        let ghost env0 = env@;
        proof {
            lemma_with_batch_extends(env0, self@.inner.account_id@, Some(self@.after), self@.inner.actions);
        }
        let index = self.schedule(env);
        promises.push(index);
        assert(promises@ =~= old(promises)@ + seq![index]);
    }
}

/// Promises merged so that another one can be scheduled after all of them finish.
#[must_use]
#[derive(Debug)]
pub struct PromiseAnd<L, R> {
    promises: Vec<PromiseIndex>,
    _marker: PhantomData<(L, R)>,
}

impl<L, R> View for PromiseAnd<L, R> {
    type V = Seq<PromiseIndex>;

    closed spec fn view(&self) -> Seq<PromiseIndex> {
        self.promises@
    }
}

impl<L, R> PromiseAnd<L, R> {
    /// A merged promise always merges two promises or more.
    #[verifier::type_invariant]
    spec fn merges_two_or_more(self) -> bool {
        self.promises@.len() >= 2
    }

    /// Merges `other` in as well: its indices are listed after those already merged.
    pub fn and<'a, O>(self, env: &mut Env<'a>, other: impl SchedulablePromise<'a, O>) -> (promise:
        PromiseAnd<PromiseAnd<L, R>, O>)
        requires
            old(env).wf(),
            self.ready(old(env)@),
            other.ready(old(env)@),
        ensures
            final(env).wf(),
            final(env)@ == other.scheduled_into(old(env)@),
            final(env).log() == old(env).log() + other.scheduled_calls(old(env)@),
            final(env)@.extends(old(env)@),
            promise@ == self@ + other.indices_in(old(env)@),
            promise@.len() >= 2,
            promise.ready(final(env)@),
    {
        proof {
            use_type_invariant(&self);
        }
        let ghost env0 = env@;
        let ghost own = self@;
        let mut promises = self.promises;
        other.append_to_promises(env, &mut promises);
        let promise = PromiseAnd { promises, _marker: PhantomData };
        proof {
            assert forall|k: int| 0 <= k < promise@.len() implies env@.contains(
                #[trigger] promise@[k],
            ) by {
                if k >= own.len() {
                    assert(promise@[k] == other.indices_in(env0)[k - own.len()]);
                } else {
                    assert(promise@[k] == own[k]);
                    assert(env0.contains(own[k]));
                }
            }
        }
        promise
    }

    /// Schedules the joint promise, then `other` to run after it.
    pub fn then<'a, O>(self, env: &mut Env<'a>, other: PromiseBuilder<'a, O>) -> (promise:
        PromiseThen<'a, O>)
        requires
            old(env).wf(),
            self.ready(old(env)@),
        ensures
            final(env).wf(),
            final(env)@ == old(env)@.with_joint(self@),
            final(env).log().len() == old(env).log().len() + 1,
            final(env).log().drop_last() == old(env).log(),
            joins(final(env).log().last(), self@),
            promise@ == (PromiseThenView { after: old(env)@.next_index() as PromiseIndex, inner: other@ }),
    {
        PromiseThen { after: self.schedule(env), inner: other }
    }

    /// Schedules the joint promise of all merged promises, in the order they were merged.
    pub fn schedule<'a>(self, env: &mut Env<'a>) -> (index: PromiseIndex)
        requires
            old(env).wf(),
            self.ready(old(env)@),
        ensures
            final(env).wf(),
            index == old(env)@.next_index(),
            final(env)@ == old(env)@.with_joint(self@),
            final(env).log().len() == old(env).log().len() + 1,
            final(env).log().drop_last() == old(env).log(),
            joins(final(env).log().last(), self@),
    {
        let ghost log0 = env.log();
        let index = env.promise_and(self.promises);
        assert(env.log().drop_last() =~= log0);
        index
    }

    /// Schedules the joint promise and marks it as the one whose result is the value
    /// returned by the current call.
    ///
    /// The host refuses to make a joint promise the result of a call, and aborts the
    /// call: the calls are recorded, and the view marks the call as refused.
    pub fn schedule_as_return<'a>(self, env: &mut Env<'a>) -> (promise: Promise<
        PromiseAnd<L, R>,
    >)
        requires
            old(env).wf(),
            self.ready(old(env)@),
        ensures
            final(env).wf(),
            promise@ == old(env)@.next_index(),
            final(env)@ == old(env)@.with_joint(self@).with_return(promise@),
            final(env)@.refused,
            final(env)@.returned == old(env)@.returned,
            final(env).log().len() == old(env).log().len() + 2,
            final(env).log().take(old(env).log().len() as int) == old(env).log(),
            joins(final(env).log()[old(env).log().len() as int], self@),
            final(env).log().last() == (HostCall::Return { promise_index: promise@ }),
    {
        let ghost log0 = env.log();
        let index = self.schedule(env);
        let ghost log1 = env.log();
        env.promise_return(index);
        assert(env.log().take(log0.len() as int) =~= log0);
        assert(env.log()[log0.len() as int] == log1.last());
        Promise { index, _marker: PhantomData }
    }
}

impl<L, R> Sealed for PromiseAnd<L, R> {}

impl<'a, L, R> SchedulablePromise<'a, PromiseAnd<L, R>> for PromiseAnd<L, R> {
    open spec fn ready(&self, env: EnvView<'a>) -> bool {
        forall|k: int| 0 <= k < self@.len() ==> env.contains(#[trigger] self@[k])
    }

    open spec fn scheduled_into(&self, env: EnvView<'a>) -> EnvView<'a> {
        env
    }

    open spec fn scheduled_calls(&self, env: EnvView<'a>) -> Seq<HostCall<'a>> {
        Seq::empty()
    }

    open spec fn indices_in(&self, env: EnvView<'a>) -> Seq<PromiseIndex> {
        self@
    }

    proof fn lemma_ready_extends(&self, earlier: EnvView<'a>, later: EnvView<'a>) {
        assert forall|k: int| 0 <= k < self@.len() implies later.contains(#[trigger] self@[k]) by {
            assert(earlier.contains(self@[k]));
        }
    }

    fn append_to_promises(self, env: &mut Env<'a>, promises: &mut Vec<PromiseIndex>)
        ensures
            final(env).log() == old(env).log(),
            final(env)@ == old(env)@,
            final(promises)@ == old(promises)@ + self@,
    {
        proof {
            use_type_invariant(&self);
            crate::env::lemma_extends_reflexive(env@);
        }
        assert(env.log() + Seq::<HostCall<'a>>::empty() =~= env.log());
        let mut own = self.promises;
        promises.append(&mut own);
    }
}

/// The Borsh declaration of a merged promise of a `left` and a `right` result:
/// `PromiseAnd<left, right>`.
pub fn promise_and_declaration(left: &str, right: &str) -> (declaration: String)
    ensures
        declaration@ == "PromiseAnd<"@ + left@ + ", "@ + right@ + ">"@,
{
    let mut declaration = String::from_str("PromiseAnd<");
    declaration.append(left);
    declaration.append(", ");
    declaration.append(right);
    declaration.append(">");
    declaration
}

/// A scheduled promise whose result is of type `T`.
pub struct Promise<T = NoReturn> {
    pub index: PromiseIndex,
    _marker: PhantomData<T>,
}

impl<T> View for Promise<T> {
    type V = PromiseIndex;

    closed spec fn view(&self) -> PromiseIndex {
        self.index
    }
}

impl<T> Promise<T> {
    /// The index of the scheduled promise.
    pub fn index(&self) -> (index: PromiseIndex)
        ensures
            index == self@,
    {
        self.index
    }
}

impl Promise<NoReturn> {
    /// Creating a promise directly is deprecated: this is [`PromiseBuilder::new`].
    pub fn new<'a>(account_id: &'a AccountId) -> (promise: PromiseBuilder<'a, NoReturn>)
        ensures
            promise@ == (PromiseBuilderView::<'a> { account_id, actions: Seq::empty() }),
    {
        PromiseBuilder::new(account_id)
    }
}

/// When the method can return either a promise or a value, it can be called with
/// `PromiseOrValue::Promise` or `PromiseOrValue::Value` to specify which one should be
/// returned.
pub enum PromiseOrValue<T> {
    Promise(Promise<T>),
    Value(T),
}

impl<T> From<Promise<T>> for PromiseOrValue<T> {
    fn from(s: Promise<T>) -> (r: Self) {
        PromiseOrValue::Promise(s)
    }
}

impl<T> vstd::std_specs::convert::FromSpecImpl<Promise<T>> for PromiseOrValue<T> {
    open spec fn obeys_from_spec() -> bool {
        true
    }

    open spec fn from_spec(s: Promise<T>) -> Self {
        PromiseOrValue::Promise(s)
    }
}

/// A promise of a promise-or-value, flattened: the same index, with the inner result type.
pub closed spec fn flatten_promise<T>(s: Promise<PromiseOrValue<T>>) -> Promise<T> {
    Promise { index: s.index, _marker: PhantomData }
}

/// Flattening a promise keeps the promise it stands for.
pub proof fn lemma_flatten_promise_index<T>(s: Promise<PromiseOrValue<T>>)
    ensures
        flatten_promise(s)@ == s@,
{
}

/// A promise-or-value of a promise-or-value, flattened to one level.
pub open spec fn flatten<T>(s: PromiseOrValue<PromiseOrValue<T>>) -> PromiseOrValue<T> {
    match s {
        PromiseOrValue::Promise(p) => PromiseOrValue::Promise(flatten_promise(p)),
        PromiseOrValue::Value(v) => v,
    }
}

impl<T> From<PromiseOrValue<PromiseOrValue<T>>> for PromiseOrValue<T> {
    fn from(s: PromiseOrValue<PromiseOrValue<T>>) -> (r: Self) {
        match s {
            PromiseOrValue::Promise(p) => {
                PromiseOrValue::Promise(Promise { index: p.index, _marker: PhantomData })
            },
            PromiseOrValue::Value(v) => v,
        }
    }
}

impl<T> vstd::std_specs::convert::FromSpecImpl<PromiseOrValue<PromiseOrValue<T>>> for PromiseOrValue<T> {
    open spec fn obeys_from_spec() -> bool {
        true
    }

    open spec fn from_spec(s: PromiseOrValue<PromiseOrValue<T>>) -> Self {
        flatten(s)
    }
}

impl<T> From<Promise<PromiseOrValue<T>>> for PromiseOrValue<T> {
    fn from(s: Promise<PromiseOrValue<T>>) -> (r: Self) {
        PromiseOrValue::Promise(Promise::from(s))
    }
}

impl<T> vstd::std_specs::convert::FromSpecImpl<Promise<PromiseOrValue<T>>> for PromiseOrValue<T> {
    open spec fn obeys_from_spec() -> bool {
        true
    }

    open spec fn from_spec(s: Promise<PromiseOrValue<T>>) -> Self {
        PromiseOrValue::Promise(flatten_promise(s))
    }
}

impl<T> From<Promise<PromiseOrValue<T>>> for Promise<T> {
    fn from(s: Promise<PromiseOrValue<T>>) -> (r: Self) {
        // Whether the result comes from a promise or is a direct value does not matter.
        Promise { index: s.index, _marker: PhantomData }
    }
}

impl<T> vstd::std_specs::convert::FromSpecImpl<Promise<PromiseOrValue<T>>> for Promise<T> {
    open spec fn obeys_from_spec() -> bool {
        true
    }

    open spec fn from_spec(s: Promise<PromiseOrValue<T>>) -> Self {
        flatten_promise(s)
    }
}

impl<T> PromiseOrValue<T> {
    /// Schedules `promise` as the result of the current call, and returns it as a promise.
    pub fn from_then<'a>(env: &mut Env<'a>, promise: PromiseThen<'a, T>) -> (r: Self)
        requires
            old(env).wf(),
            promise.ready(old(env)@),
        ensures
            final(env).wf(),
            final(env)@ == promise.scheduled_into(old(env)@).with_return(
                old(env)@.next_index() as PromiseIndex,
            ),
            final(env).log() == old(env).log() + promise.scheduled_calls(old(env)@) + seq![
                HostCall::Return { promise_index: old(env)@.next_index() as PromiseIndex },
            ],
            r matches PromiseOrValue::Promise(p) && p@ == old(env)@.next_index(),
    {
        PromiseOrValue::Promise(promise.schedule_as_return(env))
    }
}

impl<'a> PromiseAction<'a> {
    /// Appends this action to the batch promise `promise_index`.
    fn add(self, env: &mut Env<'a>, promise_index: PromiseIndex)
        requires
            old(env).wf(),
            old(env)@.is_batch(promise_index),
        ensures
            final(env).wf(),
            final(env)@ == old(env)@.with_action(promise_index, self),
            final(env).log() == old(env).log().push(HostCall::BatchAction { promise_index, action: self }),
    {
        match self {
            PromiseAction::CreateAccount => env.promise_batch_action_create_account(promise_index),
            PromiseAction::DeployContract { code } => {
                env.promise_batch_action_deploy_contract(promise_index, code)
            },
            PromiseAction::FunctionCallWeight { function_name, arguments, amount, gas, weight } => {
                env.promise_batch_action_function_call_weight(
                    promise_index,
                    function_name,
                    arguments,
                    amount,
                    gas,
                    GasWeight(weight.0),
                )
            },
            PromiseAction::Transfer { amount } => {
                env.promise_batch_action_transfer(promise_index, amount)
            },
            PromiseAction::Stake { amount, public_key } => {
                env.promise_batch_action_stake(promise_index, amount, public_key)
            },
            PromiseAction::AddFullAccessKey { public_key, nonce } => {
                env.promise_batch_action_add_key_with_full_access(promise_index, public_key, nonce)
            },
            PromiseAction::AddAccessKey {
                public_key,
                allowance,
                receiver_id,
                function_names,
                nonce,
            } => {
                env.promise_batch_action_add_key_with_function_call(
                    promise_index,
                    public_key,
                    nonce,
                    allowance,
                    receiver_id,
                    function_names,
                )
            },
            PromiseAction::DeleteKey { public_key } => {
                env.promise_batch_action_delete_key(promise_index, public_key)
            },
            PromiseAction::DeleteAccount { beneficiary_id } => {
                env.promise_batch_action_delete_account(promise_index, beneficiary_id)
            },
        }
    }
}

} // verus!
