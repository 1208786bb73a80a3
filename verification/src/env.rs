use vstd::prelude::*;

use crate::types::{AccountId, Balance, Gas, GasWeight, PromiseIndex, PublicKey};

verus! {

/// An action to be executed on the receiver of a batch promise.
#[derive(Debug, PartialEq, Eq)]
pub enum PromiseAction<'a> {
    CreateAccount,
    DeployContract { code: &'a [u8] },
    FunctionCallWeight {
        function_name: &'a str,
        arguments: Vec<u8>,
        amount: Balance,
        gas: Gas,
        weight: GasWeight,
    },
    Transfer { amount: Balance },
    Stake { amount: Balance, public_key: &'a PublicKey },
    AddFullAccessKey { public_key: &'a PublicKey, nonce: u64 },
    AddAccessKey {
        public_key: &'a PublicKey,
        allowance: Balance,
        receiver_id: &'a AccountId,
        function_names: &'a str,
        nonce: u64,
    },
    DeleteKey { public_key: &'a PublicKey },
    DeleteAccount { beneficiary_id: &'a AccountId },
}

/// One call into the host's promise interface, in the order the contract makes it.
#[derive(Debug, PartialEq, Eq)]
pub enum HostCall<'a> {
    /// Create a batch promise acting on `account_id`.
    BatchCreate { account_id: &'a AccountId },
    /// Create a batch promise acting on `account_id` that runs once promise `after` completes.
    BatchThen { after: PromiseIndex, account_id: &'a AccountId },
    /// Create a joint promise that completes once all of `promise_indices` complete.
    And { promise_indices: Vec<PromiseIndex> },
    /// Append `action` to the batch promise `promise_index`.
    BatchAction { promise_index: PromiseIndex, action: PromiseAction<'a> },
    /// Make promise `promise_index` the result of the current call.
    Return { promise_index: PromiseIndex },
}

/// What the host knows of one promise created during the current call.
pub enum PromiseRecord<'a> {
    /// A batch of actions on `account_id`, to run after promise `after` where there is one.
    Batch { account_id: Seq<char>, after: Option<PromiseIndex>, actions: Seq<PromiseAction<'a>> },
    /// A promise that completes once all of `promises` complete.
    Joint { promises: Seq<PromiseIndex> },
}

/// The promises created during the current call, indexed by their `PromiseIndex`,
/// the promise made the call's result, if any, and whether the host refused a call,
/// which aborts the contract call.
pub struct EnvView<'a> {
    pub promises: Seq<PromiseRecord<'a>>,
    pub returned: Option<PromiseIndex>,
    pub refused: bool,
}

/// Whether every promise that `record` depends on has an index below `bound`.
pub open spec fn record_refers_below<'a>(record: PromiseRecord<'a>, bound: int) -> bool {
    match record {
        PromiseRecord::Batch { after, .. } => after matches Some(a) ==> a < bound,
        PromiseRecord::Joint { promises } => forall|k: int|
            0 <= k < promises.len() ==> #[trigger] promises[k] < bound,
    }
}

/// Whether `later` is `earlier`, possibly with more actions appended to it.
pub open spec fn record_extends<'a>(later: PromiseRecord<'a>, earlier: PromiseRecord<'a>) -> bool {
    match (later, earlier) {
        (
            PromiseRecord::Batch { account_id: a1, after: f1, actions: s1 },
            PromiseRecord::Batch { account_id: a0, after: f0, actions: s0 },
        ) => a1 == a0 && f1 == f0 && s0.len() <= s1.len() && s1.take(s0.len() as int) == s0,
        (PromiseRecord::Joint { promises: p1 }, PromiseRecord::Joint { promises: p0 }) => p1 == p0,
        _ => false,
    }
}

impl<'a> EnvView<'a> {
    /// No promise created yet, no result chosen.
    pub open spec fn empty() -> Self {
        EnvView { promises: Seq::empty(), returned: None, refused: false }
    }

    /// Whether `index` names a promise created so far.
    pub open spec fn contains(self, index: PromiseIndex) -> bool {
        index < self.promises.len()
    }

    /// Whether `index` names a batch promise created so far.
    pub open spec fn is_batch(self, index: PromiseIndex) -> bool {
        self.contains(index) && self.promises[index as int] is Batch
    }

    /// The next promise index the host hands out.
    pub open spec fn next_index(self) -> nat {
        self.promises.len()
    }

    pub open spec fn with_batch(
        self,
        account_id: Seq<char>,
        after: Option<PromiseIndex>,
        actions: Seq<PromiseAction<'a>>,
    ) -> Self {
        EnvView {
            promises: self.promises.push(PromiseRecord::Batch { account_id, after, actions }),
            returned: self.returned,
            refused: self.refused,
        }
    }

    pub open spec fn with_joint(self, promises: Seq<PromiseIndex>) -> Self {
        EnvView {
            promises: self.promises.push(PromiseRecord::Joint { promises }),
            returned: self.returned,
            refused: self.refused,
        }
    }

    /// `action` appended to batch `index`; nothing changes where `index` is no batch.
    pub open spec fn with_action(self, index: PromiseIndex, action: PromiseAction<'a>) -> Self {
        if self.is_batch(index) {
            match self.promises[index as int] {
                PromiseRecord::Batch { account_id, after, actions } => EnvView {
                    promises: self.promises.update(
                        index as int,
                        PromiseRecord::Batch { account_id, after, actions: actions.push(action) },
                    ),
                    returned: self.returned,
                    refused: self.refused,
                },
                PromiseRecord::Joint { .. } => self,
            }
        } else {
            self
        }
    }

    /// Batch `index` made the call's result. The host refuses to make a joint promise
    /// the result: it aborts the call instead, and the result stays as it was.
    pub open spec fn with_return(self, index: PromiseIndex) -> Self {
        if self.is_batch(index) {
            EnvView { promises: self.promises, returned: Some(index), refused: self.refused }
        } else {
            EnvView { promises: self.promises, returned: self.returned, refused: true }
        }
    }

    /// The effect of one host call.
    pub open spec fn apply(self, call: HostCall<'a>) -> Self {
        match call {
            HostCall::BatchCreate { account_id } => self.with_batch(account_id@, None, Seq::empty()),
            HostCall::BatchThen { after, account_id } => self.with_batch(
                account_id@,
                Some(after),
                Seq::empty(),
            ),
            HostCall::And { promise_indices } => self.with_joint(promise_indices@),
            HostCall::BatchAction { promise_index, action } => self.with_action(
                promise_index,
                action,
            ),
            HostCall::Return { promise_index } => self.with_return(promise_index),
        }
    }

    /// Whether `call` is well formed in this state: every index it names is a promise
    /// created before it, and actions go to batch promises only. These are the host's
    /// index checks. Making a joint promise the result is well formed here, and the view
    /// marks the call as refused (`with_return`); the host's limits on the number of
    /// actions and dependencies are not part of this model.
    pub open spec fn accepts(self, call: HostCall<'a>) -> bool {
        match call {
            HostCall::BatchCreate { .. } => true,
            HostCall::BatchThen { after, .. } => self.contains(after),
            HostCall::And { promise_indices } => forall|k: int|
                0 <= k < promise_indices@.len() ==> self.contains(#[trigger] promise_indices@[k]),
            HostCall::BatchAction { promise_index, .. } => self.is_batch(promise_index),
            HostCall::Return { promise_index } => self.contains(promise_index),
        }
    }

    /// Every promise depends only on promises created before it, and the result, if
    /// chosen, is a promise that exists.
    pub open spec fn refers_back(self) -> bool {
        &&& forall|i: int|
            0 <= i < self.promises.len() ==> record_refers_below(#[trigger] self.promises[i], i)
        &&& self.returned matches Some(r) ==> r < self.promises.len()
    }

    /// Whether `self` holds every promise of `earlier` unchanged but for actions appended
    /// to batches, and possibly more promises after them.
    pub open spec fn extends(self, earlier: EnvView<'a>) -> bool {
        &&& earlier.promises.len() <= self.promises.len()
        &&& forall|i: int|
            0 <= i < earlier.promises.len() ==> record_extends(
                #[trigger] self.promises[i],
                earlier.promises[i],
            )
    }
}

/// The calls that append `actions`, in order, to batch `index`.
pub open spec fn action_calls<'a>(index: PromiseIndex, actions: Seq<PromiseAction<'a>>) -> Seq<HostCall<'a>> {
    actions.map_values(|action: PromiseAction<'a>| HostCall::BatchAction { promise_index: index, action })
}

/// Whether `call` creates the joint promise of exactly `indices`, in order.
pub open spec fn joins<'a>(call: HostCall<'a>, indices: Seq<PromiseIndex>) -> bool {
    call matches HostCall::And { promise_indices } && promise_indices@ == indices
}

/// The state of the promises after the host has executed `log`, in order, from the start
/// of a call.
pub open spec fn replay<'a>(log: Seq<HostCall<'a>>) -> EnvView<'a>
    decreases log.len(),
{
    if log.len() == 0 {
        EnvView::empty()
    } else {
        replay(log.drop_last()).apply(log.last())
    }
}

/// Whether every call of `log` is well formed (`accepts`) in the state left by the calls
/// before it.
pub open spec fn valid_log<'a>(log: Seq<HostCall<'a>>) -> bool {
    forall|k: int| #![trigger log[k]] 0 <= k < log.len() ==> replay(log.take(k)).accepts(log[k])
}

/// A call never creates more than one promise.
proof fn lemma_replay_len<'a>(log: Seq<HostCall<'a>>)
    ensures
        replay(log).promises.len() <= log.len(),
    decreases log.len(),
{
    if log.len() > 0 {
        lemma_replay_len(log.drop_last());
    }
}

/// Appending a well formed call to a valid log keeps it valid, and its replay is one step on.
proof fn lemma_valid_log_push<'a>(log: Seq<HostCall<'a>>, call: HostCall<'a>)
    requires
        valid_log(log),
        replay(log).accepts(call),
    ensures
        valid_log(log.push(call)),
        replay(log.push(call)) == replay(log).apply(call),
{
    let new_log = log.push(call);
    assert(new_log.drop_last() =~= log);
    assert forall|k: int| #![trigger new_log[k]] 0 <= k < new_log.len() implies replay(
        new_log.take(k),
    ).accepts(new_log[k]) by {
        if k < log.len() {
            assert(new_log.take(k) =~= log.take(k));
            assert(new_log[k] == log[k]);
        } else {
            assert(new_log.take(k) =~= log);
        }
    }
}

/// A valid log without its last call is valid, and that last call was well formed.
proof fn lemma_valid_log_drop_last<'a>(log: Seq<HostCall<'a>>)
    requires
        valid_log(log),
        log.len() > 0,
    ensures
        valid_log(log.drop_last()),
        replay(log.drop_last()).accepts(log.last()),
{
    let prefix = log.drop_last();
    assert forall|k: int| #![trigger prefix[k]] 0 <= k < prefix.len() implies replay(
        prefix.take(k),
    ).accepts(prefix[k]) by {
        assert(prefix.take(k) =~= log.take(k));
        assert(prefix[k] == log[k]);
    }
    assert(log.take(log.len() - 1) =~= prefix);
    assert(log[log.len() - 1] == log.last());
}

/// One well formed call keeps every promise referring only to earlier ones.
proof fn lemma_apply_refers_back<'a>(view: EnvView<'a>, call: HostCall<'a>)
    requires
        view.refers_back(),
        view.accepts(call),
    ensures
        view.apply(call).refers_back(),
{
    let next = view.apply(call);
    let n = view.promises.len() as int;
    assert forall|i: int| 0 <= i < next.promises.len() implies record_refers_below(
        #[trigger] next.promises[i],
        i,
    ) by {
        if i < n {
            assert(record_refers_below(view.promises[i], i));
        }
    }
}

/// One well formed call never removes a promise nor changes one but by appending an action.
pub proof fn lemma_apply_extends<'a>(view: EnvView<'a>, call: HostCall<'a>)
    requires
        view.accepts(call),
    ensures
        view.apply(call).extends(view),
{
    let next = view.apply(call);
    assert forall|i: int| 0 <= i < view.promises.len() implies record_extends(
        #[trigger] next.promises[i],
        view.promises[i],
    ) by {
        match view.promises[i] {
            PromiseRecord::Batch { account_id, after, actions } => {
                assert(actions.take(actions.len() as int) =~= actions);
                match call {
                    HostCall::BatchAction { promise_index, action } => {
                        assert(actions.push(action).take(actions.len() as int) =~= actions);
                    },
                    _ => {},
                }
            },
            PromiseRecord::Joint { .. } => {},
        }
    }
}

/// Every state extends itself.
pub proof fn lemma_extends_reflexive<'a>(view: EnvView<'a>)
    ensures
        view.extends(view),
{
    assert forall|i: int| 0 <= i < view.promises.len() implies record_extends(
        #[trigger] view.promises[i],
        view.promises[i],
    ) by {
        match view.promises[i] {
            PromiseRecord::Batch { actions, .. } => {
                assert(actions.take(actions.len() as int) =~= actions);
            },
            PromiseRecord::Joint { .. } => {},
        }
    }
}

/// Extension is transitive.
pub proof fn lemma_extends_transitive<'a>(c: EnvView<'a>, b: EnvView<'a>, a: EnvView<'a>)
    requires
        c.extends(b),
        b.extends(a),
    ensures
        c.extends(a),
{
    assert forall|i: int| 0 <= i < a.promises.len() implies record_extends(
        #[trigger] c.promises[i],
        a.promises[i],
    ) by {
        assert(record_extends(c.promises[i], b.promises[i]));
        assert(record_extends(b.promises[i], a.promises[i]));
        match (c.promises[i], b.promises[i], a.promises[i]) {
            (
                PromiseRecord::Batch { actions: s2, .. },
                PromiseRecord::Batch { actions: s1, .. },
                PromiseRecord::Batch { actions: s0, .. },
            ) => {
                assert(s2.take(s0.len() as int) =~= s2.take(s1.len() as int).take(s0.len() as int));
            },
            _ => {},
        }
    }
}

/// Creating a batch promise keeps every earlier promise as it was.
pub proof fn lemma_with_batch_extends<'a>(
    view: EnvView<'a>,
    account_id: Seq<char>,
    after: Option<PromiseIndex>,
    actions: Seq<PromiseAction<'a>>,
)
    ensures
        view.with_batch(account_id, after, actions).extends(view),
{
    lemma_extends_reflexive(view);
}

/// The promises created by the calls of a valid log each depend only on promises
/// created before them, and the chosen result exists.
pub proof fn lemma_valid_log_refers_back<'a>(log: Seq<HostCall<'a>>)
    requires
        valid_log(log),
    ensures
        replay(log).refers_back(),
    decreases log.len(),
{
    if log.len() > 0 {
        lemma_valid_log_drop_last(log);
        lemma_valid_log_refers_back(log.drop_last());
        lemma_apply_refers_back(replay(log.drop_last()), log.last());
    }
}

/// The promises created during one contract call, as the calls into the host that
/// create them.
///
/// Each method stands for the host function of the same name: it records the call
/// and returns the index the host hands out, counting the promises of the call from
/// zero. One `Env` is to hold every promise created during a call, from its start.
pub struct Env<'a> {
    calls: Vec<HostCall<'a>>,
    promise_count: usize,
}

impl<'a> View for Env<'a> {
    type V = EnvView<'a>;

    open spec fn view(&self) -> EnvView<'a> {
        replay(self.log())
    }
}

impl<'a> Env<'a> {
    /// The calls made so far, in order.
    pub closed spec fn log(&self) -> Seq<HostCall<'a>> {
        self.calls@
    }

    /// Every call made so far was well formed when it was made.
    pub closed spec fn wf(&self) -> bool {
        &&& valid_log(self.calls@)
        &&& self.promise_count == replay(self.calls@).promises.len()
    }

    /// The state at the start of a call: no promise, no result.
    pub fn new() -> (env: Env<'a>)
        ensures
            env.wf(),
            env.log() == Seq::<HostCall<'a>>::empty(),
            env@ == EnvView::<'a>::empty(),
    {
        let env = Env { calls: Vec::new(), promise_count: 0 };
        assert(env.calls@ =~= Seq::<HostCall<'a>>::empty());
        env
    }

    /// The calls made so far, in order, for the host to execute.
    pub fn calls(&self) -> (calls: &Vec<HostCall<'a>>)
        ensures
            calls@ == self.log(),
    {
        &self.calls
    }

    /// Records `call`, which is well formed in the current state.
    fn record(&mut self, call: HostCall<'a>)
        requires
            old(self).wf(),
            old(self)@.accepts(call),
            call is BatchAction || call is Return,
        ensures
            final(self).wf(),
            final(self).log() == old(self).log().push(call),
            final(self)@ == old(self)@.apply(call),
    {
        proof {
            lemma_valid_log_push(self.calls@, call);
        }
        self.calls.push(call);
    }

    /// Records `call`, which creates a promise, and returns that promise's index.
    fn record_new(&mut self, call: HostCall<'a>) -> (index: PromiseIndex)
        requires
            old(self).wf(),
            old(self)@.accepts(call),
            call is BatchCreate || call is BatchThen || call is And,
        ensures
            final(self).wf(),
            final(self).log() == old(self).log().push(call),
            final(self)@ == old(self)@.apply(call),
            index == old(self)@.next_index(),
    {
        proof {
            lemma_valid_log_push(self.calls@, call);
            lemma_replay_len(self.calls@.push(call));
        }
        let index = self.promise_count;
        self.calls.push(call);
        assert(replay(self.calls@).promises.len() <= self.calls.len());
        self.promise_count = index + 1;
        index as u64
    }

    /// Creates a batch promise acting on `account_id`.
    pub fn promise_batch_create(&mut self, account_id: &'a AccountId) -> (index: PromiseIndex)
        requires
            old(self).wf(),
        ensures
            final(self).wf(),
            final(self).log() == old(self).log().push(HostCall::BatchCreate { account_id }),
            index == old(self)@.next_index(),
            final(self)@ == old(self)@.with_batch(account_id@, None, Seq::empty()),
    {
        self.record_new(HostCall::BatchCreate { account_id })
    }

    /// Creates a batch promise acting on `account_id` that runs once promise `after`
    /// completes.
    pub fn promise_batch_then(&mut self, after: PromiseIndex, account_id: &'a AccountId) -> (index:
        PromiseIndex)
        requires
            old(self).wf(),
            old(self)@.contains(after),
        ensures
            final(self).wf(),
            final(self).log() == old(self).log().push(HostCall::BatchThen { after, account_id }),
            index == old(self)@.next_index(),
            final(self)@ == old(self)@.with_batch(account_id@, Some(after), Seq::empty()),
    {
        self.record_new(HostCall::BatchThen { after, account_id })
    }

    /// Creates a joint promise that completes once all of `promise_indices` complete.
    pub fn promise_and(&mut self, promise_indices: Vec<PromiseIndex>) -> (index: PromiseIndex)
        requires
            old(self).wf(),
            forall|k: int|
                0 <= k < promise_indices@.len() ==> old(self)@.contains(
                    #[trigger] promise_indices@[k],
                ),
        ensures
            final(self).wf(),
            final(self).log() == old(self).log().push(HostCall::And { promise_indices }),
            index == old(self)@.next_index(),
            final(self)@ == old(self)@.with_joint(promise_indices@),
    {
        self.record_new(HostCall::And { promise_indices })
    }

    /// Appends `action` to the batch promise `promise_index`.
    fn promise_batch_action(&mut self, promise_index: PromiseIndex, action: PromiseAction<'a>)
        requires
            old(self).wf(),
            old(self)@.is_batch(promise_index),
        ensures
            final(self).wf(),
            final(self).log() == old(self).log().push(HostCall::BatchAction { promise_index, action }),
            final(self)@ == old(self)@.with_action(promise_index, action),
    {
        self.record(HostCall::BatchAction { promise_index, action })
    }

    /// Appends creating the receiver account to batch `promise_index`.
    pub fn promise_batch_action_create_account(&mut self, promise_index: PromiseIndex)
        requires
            old(self).wf(),
            old(self)@.is_batch(promise_index),
        ensures
            final(self).wf(),
            final(self).log() == old(self).log().push(HostCall::BatchAction { promise_index, action: PromiseAction::CreateAccount }),
            final(self)@ == old(self)@.with_action(promise_index, PromiseAction::CreateAccount),
    {
        self.promise_batch_action(promise_index, PromiseAction::CreateAccount)
    }

    /// Appends deploying `code` on the receiver to batch `promise_index`.
    pub fn promise_batch_action_deploy_contract(&mut self, promise_index: PromiseIndex, code: &'a [u8])
        requires
            old(self).wf(),
            old(self)@.is_batch(promise_index),
        ensures
            final(self).wf(),
            final(self).log() == old(self).log().push(HostCall::BatchAction { promise_index, action: PromiseAction::DeployContract { code } }),
            final(self)@ == old(self)@.with_action(
                promise_index,
                PromiseAction::DeployContract { code },
            ),
    {
        self.promise_batch_action(promise_index, PromiseAction::DeployContract { code })
    }

    /// Appends a function call on the receiver to batch `promise_index`.
    pub fn promise_batch_action_function_call_weight(
        &mut self,
        promise_index: PromiseIndex,
        function_name: &'a str,
        arguments: Vec<u8>,
        amount: Balance,
        gas: Gas,
        weight: GasWeight,
    )
        requires
            old(self).wf(),
            old(self)@.is_batch(promise_index),
        ensures
            final(self).wf(),
            final(self).log() == old(self).log().push(HostCall::BatchAction { promise_index, action: PromiseAction::FunctionCallWeight { function_name, arguments, amount, gas, weight } }),
            final(self)@ == old(self)@.with_action(
                promise_index,
                PromiseAction::FunctionCallWeight { function_name, arguments, amount, gas, weight },
            ),
    {
        self.promise_batch_action(
            promise_index,
            PromiseAction::FunctionCallWeight { function_name, arguments, amount, gas, weight },
        )
    }

    /// Appends a transfer of `amount` to the receiver to batch `promise_index`.
    pub fn promise_batch_action_transfer(&mut self, promise_index: PromiseIndex, amount: Balance)
        requires
            old(self).wf(),
            old(self)@.is_batch(promise_index),
        ensures
            final(self).wf(),
            final(self).log() == old(self).log().push(HostCall::BatchAction { promise_index, action: PromiseAction::Transfer { amount } }),
            final(self)@ == old(self)@.with_action(promise_index, PromiseAction::Transfer { amount }),
    {
        self.promise_batch_action(promise_index, PromiseAction::Transfer { amount })
    }

    /// Appends staking `amount` with `public_key` to batch `promise_index`.
    pub fn promise_batch_action_stake(
        &mut self,
        promise_index: PromiseIndex,
        amount: Balance,
        public_key: &'a PublicKey,
    )
        requires
            old(self).wf(),
            old(self)@.is_batch(promise_index),
        ensures
            final(self).wf(),
            final(self).log() == old(self).log().push(HostCall::BatchAction { promise_index, action: PromiseAction::Stake { amount, public_key } }),
            final(self)@ == old(self)@.with_action(
                promise_index,
                PromiseAction::Stake { amount, public_key },
            ),
    {
        self.promise_batch_action(promise_index, PromiseAction::Stake { amount, public_key })
    }

    /// Appends adding a full access key to batch `promise_index`.
    pub fn promise_batch_action_add_key_with_full_access(
        &mut self,
        promise_index: PromiseIndex,
        public_key: &'a PublicKey,
        nonce: u64,
    )
        requires
            old(self).wf(),
            old(self)@.is_batch(promise_index),
        ensures
            final(self).wf(),
            final(self).log() == old(self).log().push(HostCall::BatchAction { promise_index, action: PromiseAction::AddFullAccessKey { public_key, nonce } }),
            final(self)@ == old(self)@.with_action(
                promise_index,
                PromiseAction::AddFullAccessKey { public_key, nonce },
            ),
    {
        self.promise_batch_action(promise_index, PromiseAction::AddFullAccessKey { public_key, nonce })
    }

    /// Appends adding a function-call access key to batch `promise_index`.
    pub fn promise_batch_action_add_key_with_function_call(
        &mut self,
        promise_index: PromiseIndex,
        public_key: &'a PublicKey,
        nonce: u64,
        allowance: Balance,
        receiver_id: &'a AccountId,
        function_names: &'a str,
    )
        requires
            old(self).wf(),
            old(self)@.is_batch(promise_index),
        ensures
            final(self).wf(),
            final(self).log() == old(self).log().push(HostCall::BatchAction { promise_index, action: PromiseAction::AddAccessKey { public_key, allowance, receiver_id, function_names, nonce } }),
            final(self)@ == old(self)@.with_action(
                promise_index,
                PromiseAction::AddAccessKey {
                    public_key,
                    allowance,
                    receiver_id,
                    function_names,
                    nonce,
                },
            ),
    {
        self.promise_batch_action(
            promise_index,
            PromiseAction::AddAccessKey { public_key, allowance, receiver_id, function_names, nonce },
        )
    }

    /// Appends deleting the access key `public_key` to batch `promise_index`.
    pub fn promise_batch_action_delete_key(&mut self, promise_index: PromiseIndex, public_key: &'a PublicKey)
        requires
            old(self).wf(),
            old(self)@.is_batch(promise_index),
        ensures
            final(self).wf(),
            final(self).log() == old(self).log().push(HostCall::BatchAction { promise_index, action: PromiseAction::DeleteKey { public_key } }),
            final(self)@ == old(self)@.with_action(
                promise_index,
                PromiseAction::DeleteKey { public_key },
            ),
    {
        self.promise_batch_action(promise_index, PromiseAction::DeleteKey { public_key })
    }

    /// Appends deleting the receiver account, its balance going to `beneficiary_id`, to
    /// batch `promise_index`.
    pub fn promise_batch_action_delete_account(
        &mut self,
        promise_index: PromiseIndex,
        beneficiary_id: &'a AccountId,
    )
        requires
            old(self).wf(),
            old(self)@.is_batch(promise_index),
        ensures
            final(self).wf(),
            final(self).log() == old(self).log().push(HostCall::BatchAction { promise_index, action: PromiseAction::DeleteAccount { beneficiary_id } }),
            final(self)@ == old(self)@.with_action(
                promise_index,
                PromiseAction::DeleteAccount { beneficiary_id },
            ),
    {
        self.promise_batch_action(promise_index, PromiseAction::DeleteAccount { beneficiary_id })
    }

    /// Makes promise `promise_index` the result of the current call; the host refuses
    /// this for a joint promise and aborts the call.
    pub fn promise_return(&mut self, promise_index: PromiseIndex)
        requires
            old(self).wf(),
            old(self)@.contains(promise_index),
        ensures
            final(self).wf(),
            final(self).log() == old(self).log().push(HostCall::Return { promise_index }),
            final(self)@ == old(self)@.with_return(promise_index),
    {
        self.record(HostCall::Return { promise_index })
    }
}

/// Every promise created through an `Env` depends only on promises created before it,
/// and the promise chosen as the call's result exists: the promises form a graph
/// without cycles that the host can run.
pub proof fn lemma_env_refers_back<'a>(env: &Env<'a>)
    requires
        env.wf(),
    ensures
        env@.refers_back(),
{
    lemma_valid_log_refers_back(env.log());
}

/// Every call an `Env` holds is well formed at the point it is made: it names only
/// promises created before it, and appends actions to batches only.
pub proof fn lemma_env_log_valid<'a>(env: &Env<'a>)
    requires
        env.wf(),
    ensures
        valid_log(env.log()),
{
}

} // verus!
