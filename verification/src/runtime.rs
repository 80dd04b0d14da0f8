//! The runtime: one instance of every module, the routing of calls to the
//! module they are meant for, and the execution of blocks.

use crate::balances;
use crate::primitives::{next_up_to, Unsigned};
use crate::proof_of_existence;
use crate::support::{Dispatch, DispatchError, DispatchResult, Extrinsic, ExtrinsicFailure};
use crate::system;
use crate::system::nonces_after_inc;
use crate::types;
use vstd::prelude::*;

verus! {

/// Every call that can be made from outside, by the module that takes it.
pub enum RuntimeCall {
    Balances(balances::Call<RuntimeConfig>),
    ProofOfExistence(proof_of_existence::Call<RuntimeConfig>),
}

/// The runtime. It owns the state of every module.
#[derive(Debug)]
pub struct Runtime {
    pub system: system::Pallet<RuntimeConfig>,
    pub balances: balances::Pallet<RuntimeConfig>,
    pub poe: proof_of_existence::Pallet<RuntimeConfig>,
}

/// The configuration of the runtime's modules: the one place that says
/// which types they work on.
#[derive(Debug)]
pub struct RuntimeConfig;

impl system::Config for RuntimeConfig {
    type AccountId = types::AccountId;

    type BlockNumber = types::BlockNumber;

    type Nonce = types::Nonce;
}

impl balances::Config for RuntimeConfig {
    type Balance = types::Balance;
}

impl proof_of_existence::Config for RuntimeConfig {
    type Content = types::Content;
}

/// All that the runtime holds: what each of its modules holds.
pub ghost struct RuntimeState {
    pub system: system::State<Seq<char>>,
    pub balances: Map<Seq<char>, nat>,
    pub claims: Map<Seq<char>, Seq<char>>,
}

impl RuntimeState {
    /// The state with the block number moved on by one.
    pub open spec fn next_block(self) -> RuntimeState {
        RuntimeState {
            system: system::State {
                block_number: next_up_to(self.system.block_number, types::BlockNumber::limit()),
                nonces: self.system.nonces,
            },
            ..self
        }
    }

    /// The state with one more extrinsic of `caller` counted.
    pub open spec fn count_extrinsic(self, caller: Seq<char>) -> RuntimeState {
        RuntimeState {
            system: system::State {
                block_number: self.system.block_number,
                nonces: nonces_after_inc(self.system.nonces, caller, types::Nonce::limit()),
            },
            ..self
        }
    }

    /// What routing `call` of `caller` to its module leads to: the new state,
    /// in which only that module's part has changed, or the module's reason
    /// for refusing the call.
    pub open spec fn dispatch(self, caller: Seq<char>, call: RuntimeCall) -> Result<
        RuntimeState,
        DispatchError,
    > {
        match call {
            RuntimeCall::Balances(call) => match balances::call_outcome(
                self.balances,
                caller,
                call,
            ) {
                Ok(balances) => Ok(RuntimeState { balances, ..self }),
                Err(e) => Err(e),
            },
            RuntimeCall::ProofOfExistence(call) => match proof_of_existence::call_outcome(
                self.claims,
                caller,
                call,
            ) {
                Ok(claims) => Ok(RuntimeState { claims, ..self }),
                Err(e) => Err(e),
            },
        }
    }

    /// The state after one extrinsic: the caller's nonce has gone up, and
    /// the call has taken effect unless it was refused.
    pub open spec fn apply(self, extrinsic: types::Extrinsic) -> RuntimeState {
        let counted = self.count_extrinsic(extrinsic.caller@);
        match counted.dispatch(extrinsic.caller@, extrinsic.call) {
            Ok(state) => state,
            Err(_) => counted,
        }
    }

    /// The reason for which the call of `extrinsic` is refused, if it is.
    pub open spec fn refusal(self, extrinsic: types::Extrinsic) -> Option<DispatchError> {
        match self.count_extrinsic(extrinsic.caller@).dispatch(
            extrinsic.caller@,
            extrinsic.call,
        ) {
            Ok(_) => None,
            Err(e) => Some(e),
        }
    }

    /// The state after the extrinsics of a block, applied in order.
    pub open spec fn apply_all(self, extrinsics: Seq<types::Extrinsic>) -> RuntimeState
        decreases extrinsics.len(),
    {
        if extrinsics.len() == 0 {
            self
        } else {
            self.apply_all(extrinsics.drop_last()).apply(extrinsics.last())
        }
    }

    /// The failures among the extrinsics of block `block_number`, applied in
    /// order from this state: one record for each call that was refused.
    pub open spec fn failures(
        self,
        block_number: types::BlockNumber,
        extrinsics: Seq<types::Extrinsic>,
    ) -> Seq<types::ExtrinsicFailure>
        decreases extrinsics.len(),
    {
        if extrinsics.len() == 0 {
            Seq::empty()
        } else {
            let earlier = extrinsics.drop_last();
            let reported = self.failures(block_number, earlier);
            match self.apply_all(earlier).refusal(extrinsics.last()) {
                Some(error) => reported.push(
                    (ExtrinsicFailure {
                        block_number,
                        extrinsic_index: earlier.len() as usize,
                        error,
                    }),
                ),
                None => reported,
            }
        }
    }

    /// Whether `block` carries the number that comes next.
    pub open spec fn accepts(self, block: types::Block) -> bool {
        self.next_block().system.block_number == block.header.block_number.value()
    }

    /// The state after `block` was submitted: the block number has moved on,
    /// and the extrinsics have been applied if the block was accepted.
    pub open spec fn after_block(self, block: types::Block) -> RuntimeState {
        if self.accepts(block) {
            self.next_block().apply_all(block.extrinsics@)
        } else {
            self.next_block()
        }
    }

    /// The failures to report of a block that was accepted.
    pub open spec fn block_failures(self, block: types::Block) -> Seq<types::ExtrinsicFailure> {
        self.next_block().failures(block.header.block_number, block.extrinsics@)
    }
}

/// An extrinsic counts for its caller whether or not its call is refused, a
/// refused call changes nothing else, and no extrinsic changes the block
/// number.
pub proof fn lemma_apply_counts_extrinsic(state: RuntimeState, extrinsic: types::Extrinsic)
    ensures
        state.apply(extrinsic).system.nonces == nonces_after_inc(
            state.system.nonces,
            extrinsic.caller@,
            types::Nonce::limit(),
        ),
        state.apply(extrinsic).system.block_number == state.system.block_number,
        state.refusal(extrinsic) is Some ==> state.apply(extrinsic) == state.count_extrinsic(
            extrinsic.caller@,
        ),
{
}

/// The extrinsics of a block leave the block number as it is.
pub proof fn lemma_apply_all_keeps_block_number(
    state: RuntimeState,
    extrinsics: Seq<types::Extrinsic>,
)
    ensures
        state.apply_all(extrinsics).system.block_number == state.system.block_number,
    decreases extrinsics.len(),
{
    if extrinsics.len() > 0 {
        lemma_apply_all_keeps_block_number(state, extrinsics.drop_last());
        lemma_apply_counts_extrinsic(state.apply_all(extrinsics.drop_last()), extrinsics.last());
    }
}

/// No extrinsic creates or destroys balance: whether its call is a transfer
/// or not, and whether it is refused or not, the sum of all balances is
/// after it what it was before.
pub proof fn lemma_apply_conserves_supply(state: RuntimeState, extrinsic: types::Extrinsic)
    requires
        state.balances.dom().finite(),
    ensures
        state.apply(extrinsic).balances.dom().finite(),
        balances::total_supply(state.apply(extrinsic).balances) == balances::total_supply(
            state.balances,
        ),
{
    match extrinsic.call {
        RuntimeCall::Balances(balances::Call::Transfer { to, amount }) => {
            let outcome = balances::transfer_outcome(
                state.balances,
                extrinsic.caller@,
                to@,
                amount.value(),
                types::Balance::limit(),
            );
            if outcome is Ok {
                balances::lemma_transfer_conserves_supply(
                    state.balances,
                    extrinsic.caller@,
                    to@,
                    amount.value(),
                    types::Balance::limit(),
                );
            }
        },
        RuntimeCall::ProofOfExistence(_) => {},
    }
}

/// The sum of all balances is the same after any sequence of extrinsics as
/// before it.
pub proof fn lemma_apply_all_conserves_supply(
    state: RuntimeState,
    extrinsics: Seq<types::Extrinsic>,
)
    requires
        state.balances.dom().finite(),
    ensures
        state.apply_all(extrinsics).balances.dom().finite(),
        balances::total_supply(state.apply_all(extrinsics).balances) == balances::total_supply(
            state.balances,
        ),
    decreases extrinsics.len(),
{
    if extrinsics.len() > 0 {
        lemma_apply_all_conserves_supply(state, extrinsics.drop_last());
        lemma_apply_conserves_supply(state.apply_all(extrinsics.drop_last()), extrinsics.last());
    }
}

/// The sum of all balances is the same after a block as before it, whether
/// the block is accepted or refused.
pub proof fn lemma_block_conserves_supply(state: RuntimeState, block: types::Block)
    requires
        state.balances.dom().finite(),
    ensures
        state.after_block(block).balances.dom().finite(),
        balances::total_supply(state.after_block(block).balances) == balances::total_supply(
            state.balances,
        ),
{
    lemma_apply_all_conserves_supply(state.next_block(), block.extrinsics@);
}

/// As long as the block number can still go up twice: a block is accepted
/// exactly when it carries the number after the current one, that number is
/// the block number once the block was submitted, and a second block that
/// carries the same number is refused.
pub proof fn lemma_block_sequencing(state: RuntimeState, first: types::Block, second: types::Block)
    requires
        state.system.block_number + 1 < types::BlockNumber::limit(),
    ensures
        state.accepts(first) <==> first.header.block_number.value() == state.system.block_number
            + 1,
        state.after_block(first).system.block_number == state.system.block_number + 1,
        second.header.block_number == first.header.block_number && state.accepts(first)
            ==> !state.after_block(first).accepts(second),
{
    lemma_apply_all_keeps_block_number(state.next_block(), first.extrinsics@);
}

/// A refused call does not keep the next one from taking effect: of two
/// extrinsics of which the first is refused and the second is not, both
/// count for their callers, the second call has its effect, and the first is
/// the one failure reported.
pub proof fn lemma_failure_is_isolated(
    state: RuntimeState,
    block_number: types::BlockNumber,
    first: types::Extrinsic,
    second: types::Extrinsic,
)
    requires
        state.refusal(first) is Some,
        state.apply(first).refusal(second) is None,
    ensures
        ({
            let counted = state.count_extrinsic(first.caller@).count_extrinsic(second.caller@);
            &&& counted.dispatch(second.caller@, second.call) is Ok
            &&& state.apply_all(seq![first, second]) == counted.dispatch(
                second.caller@,
                second.call,
            )->Ok_0
            &&& state.failures(block_number, seq![first, second]) == seq![
                (ExtrinsicFailure {
                    block_number,
                    extrinsic_index: 0,
                    error: state.refusal(first)->Some_0,
                }),
            ]
        }),
{
    let both = seq![first, second];
    let one = seq![first];
    assert(both.drop_last() =~= one);
    assert(one.drop_last() =~= Seq::<types::Extrinsic>::empty());
    assert(both.last() == second);
    assert(one.last() == first);
    reveal_with_fuel(RuntimeState::apply_all, 3);
    reveal_with_fuel(RuntimeState::failures, 3);
    assert(state.apply_all(one) == state.apply(first));
    assert(state.failures(block_number, one).len() == 1);
}

impl View for Runtime {
    type V = RuntimeState;

    open spec fn view(&self) -> RuntimeState {
        RuntimeState { system: self.system@, balances: self.balances@, claims: self.poe@ }
    }
}

impl Dispatch for Runtime {
    type Caller = types::AccountId;

    type Call = RuntimeCall;

    /// Routes `runtime_call` to the module it is meant for, which carries it
    /// out for `caller`. The result is the module's own; nothing else
    /// changes.
    fn dispatch(&mut self, caller: types::AccountId, runtime_call: RuntimeCall) -> (r:
        DispatchResult)
        ensures
            match old(self)@.dispatch(caller@, runtime_call) {
                Ok(state) => r == Ok::<(), DispatchError>(()) && final(self)@ == state,
                Err(e) => r == Err::<(), DispatchError>(e) && final(self)@ == old(self)@,
            },
    {
        match runtime_call {
            RuntimeCall::Balances(call) => self.balances.dispatch(caller, call),
            RuntimeCall::ProofOfExistence(call) => self.poe.dispatch(caller, call),
        }
    }
}

impl Runtime {
    /// A runtime in which nothing has happened yet: block number 0, and no
    /// nonce, balance or claim stored.
    pub fn new() -> (r: Self)
        ensures
            r@.system.block_number == 0,
            r@.system.nonces == Map::<Seq<char>, nat>::empty(),
            r@.balances == Map::<Seq<char>, nat>::empty(),
            r@.claims == Map::<Seq<char>, Seq<char>>::empty(),
    {
        Runtime {
            system: system::Pallet::new(),
            balances: balances::Pallet::new(),
            poe: proof_of_existence::Pallet::new(),
        }
    }

    /// Executes `block`. The block number moves on first. If the block does
    /// not carry that number it is refused, and nothing else changes.
    /// Otherwise its extrinsics are applied in order: for each the caller's
    /// nonce goes up and the call is routed to its module. A call that is
    /// refused changes nothing more and stops nothing; it is recorded in the
    /// list that is returned.
    pub fn execute_block(&mut self, block: types::Block) -> (r: Result<
        Vec<types::ExtrinsicFailure>,
        DispatchError,
    >)
        ensures
            final(self)@ == old(self)@.after_block(block),
            match r {
                Ok(failures) => old(self)@.accepts(block) && failures@ == old(self)@.block_failures(
                    block,
                ),
                Err(e) => !old(self)@.accepts(block) && e == DispatchError::InvalidBlockNumber,
            },
    {
        self.system.inc_block_number();
        let block_number = block.header.block_number;
        if !self.system.block_number().same(block_number) {
            return Err(DispatchError::InvalidBlockNumber);
        }
        let ghost started = self@;
        let ghost extrinsics = block.extrinsics@;
        let count = block.extrinsics.len();
        let mut failures: Vec<types::ExtrinsicFailure> = Vec::new();
        let mut i: usize = 0;
        for extrinsic in it: block.extrinsics
            invariant
                it.seq() == extrinsics,
                extrinsics.len() == count,
                i == it.index(),
                self@ == started.apply_all(extrinsics.take(it.index() as int)),
                failures@ == started.failures(block_number, extrinsics.take(it.index() as int)),
        {
            proof {
                assert(extrinsics.take(i + 1).drop_last() =~= extrinsics.take(i as int));
            }
            let Extrinsic { caller, call } = extrinsic;
            self.system.inc_nonce(&caller);
            match self.dispatch(caller, call) {
                Ok(()) => {},
                Err(error) => {
                    failures.push(
                        ExtrinsicFailure {
                            block_number,
                            extrinsic_index: i,
                            error,
                        },
                    );
                },
            }
            i += 1;
        }
        proof {
            assert(extrinsics.take(extrinsics.len() as int) =~= extrinsics);
        }
        Ok(failures)
    }
}

} // verus!
