//! The order of a run.
//!
//! A run asks the node three things in turn: the gas price, the number of
//! the latest block, and that block. The driver decides what to do next; it
//! neither sends nor prints. Its caller sends each request, hands back what
//! came of it as an [`Event`], and carries out the [`Action`] it gets in
//! return. A run ends with the quote, or with the reason why there is none.

use vstd::prelude::*;
use crate::fees::{quote_from_hex, quote_of_hex, FeeQuote, FeeQuoteView};
use crate::method::EthRpcMethod;
use crate::hex::{decorate, lemma_quotes_are_ignored, HexError};
use crate::json::json_parse;
use crate::rpc::{
    base_fee_key,
    parse_response,
    plain_base_fee,
    request_for,
    response_of,
    result_key,
    Field,
    RpcError,
    RpcRequest,
    RpcRequestView,
    RpcResultView,
};

verus! {

/// Where a run stands.
#[derive(Clone, Debug, PartialEq, Eq)]
pub enum Driver {
    /// The gas price was asked for.
    AwaitGasPrice,
    /// The block number was asked for.
    AwaitBlockNumber {
        /// The gas price, as the node reported it.
        gas_price: String,
    },
    /// The block was asked for.
    AwaitBlock {
        /// The gas price, as the node reported it.
        gas_price: String,
        /// The block number, as the node reported it.
        block_number: String,
    },
    /// The run is over.
    Finished,
}

/// What a [`Driver`] holds, as mathematical values.
pub enum DriverView {
    AwaitGasPrice,
    AwaitBlockNumber { gas_price: Seq<char> },
    AwaitBlock { gas_price: Seq<char>, block_number: Seq<char> },
    Finished,
}

impl View for Driver {
    type V = DriverView;

    open spec fn view(&self) -> DriverView {
        match self {
            Driver::AwaitGasPrice => DriverView::AwaitGasPrice,
            Driver::AwaitBlockNumber { gas_price } => DriverView::AwaitBlockNumber {
                gas_price: gas_price@,
            },
            Driver::AwaitBlock { gas_price, block_number } => DriverView::AwaitBlock {
                gas_price: gas_price@,
                block_number: block_number@,
            },
            Driver::Finished => DriverView::Finished,
        }
    }
}

/// What came of the request that was sent last.
#[derive(Clone, Debug, PartialEq, Eq)]
pub enum Event {
    /// The node answered; this is the body of its response.
    Response(Vec<u8>),
    /// No answer could be had: the connection failed, or the node did not
    /// report success.
    TransportFailure,
}

/// What an [`Event`] holds, as mathematical values.
pub enum EventView {
    Response(Seq<u8>),
    TransportFailure,
}

impl View for Event {
    type V = EventView;

    open spec fn view(&self) -> EventView {
        match self {
            Event::Response(body) => EventView::Response(body@),
            Event::TransportFailure => EventView::TransportFailure,
        }
    }
}

/// Why a run ended without a quote.
#[derive(Clone, Copy, Debug, PartialEq, Eq, Structural)]
pub enum Failure {
    /// No answer could be had.
    Transport,
    /// An answer could not be read.
    Protocol(RpcError),
    /// A quantity in an answer could not be decoded.
    Decode(HexError),
    /// The run was over before the event came.
    Finished,
}

/// What the caller is to do next.
#[derive(Clone, Debug, PartialEq, Eq)]
pub enum Action {
    /// Send this request, and come back with what came of it.
    Send(RpcRequest),
    /// Report the quote: the run succeeded.
    Finish(FeeQuote),
    /// Report the failure: the run is over, and there is no quote.
    Abort(Failure),
}

/// What an [`Action`] holds, as mathematical values.
pub enum ActionView {
    Send(RpcRequestView),
    Finish(FeeQuoteView),
    Abort(Failure),
}

impl View for Action {
    type V = ActionView;

    open spec fn view(&self) -> ActionView {
        match self {
            Action::Send(request) => ActionView::Send(request@),
            Action::Finish(quote) => ActionView::Finish(quote@),
            Action::Abort(failure) => ActionView::Abort(*failure),
        }
    }
}

/// The step that ends a run without a quote.
pub open spec fn abort(failure: Failure) -> (DriverView, ActionView) {
    (DriverView::Finished, ActionView::Abort(failure))
}

/// The step taken when the gas price was asked for and `body` came back.
pub open spec fn on_gas_price(body: Seq<u8>) -> (DriverView, ActionView) {
    match response_of(EthRpcMethod::EthGasPrice, body) {
        Err(e) => abort(Failure::Protocol(e)),
        Ok(read) => (
            DriverView::AwaitBlockNumber { gas_price: read.text() },
            ActionView::Send(request_for(EthRpcMethod::EthBlockNumber, Seq::empty())),
        ),
    }
}

/// The step taken when the block number was asked for and `body` came back.
pub open spec fn on_block_number(gas_price: Seq<char>, body: Seq<u8>) -> (DriverView, ActionView) {
    match response_of(EthRpcMethod::EthBlockNumber, body) {
        Err(e) => abort(Failure::Protocol(e)),
        Ok(read) => (
            DriverView::AwaitBlock { gas_price, block_number: read.text() },
            ActionView::Send(request_for(EthRpcMethod::EthGetBlockByNumber, read.text())),
        ),
    }
}

/// The step taken once all three answers are in, with the base fee as the
/// text `base_fee`.
pub open spec fn on_base_fee(gas_price: Seq<char>, block_number: Seq<char>, base_fee: Seq<char>) -> (
    DriverView,
    ActionView,
) {
    match quote_of_hex(gas_price, base_fee, block_number) {
        Err(e) => abort(Failure::Decode(e)),
        Ok(quote) => (DriverView::Finished, ActionView::Finish(quote)),
    }
}

/// The step taken when the block was asked for and `body` came back.
pub open spec fn on_block(gas_price: Seq<char>, block_number: Seq<char>, body: Seq<u8>) -> (
    DriverView,
    ActionView,
) {
    match response_of(EthRpcMethod::EthGetBlockByNumber, body) {
        Err(e) => abort(Failure::Protocol(e)),
        Ok(read) => on_base_fee(gas_price, block_number, read.text()),
    }
}

/// The step taken in `state` on `event`: the state after it, and what the
/// caller is to do.
pub open spec fn step_of(state: DriverView, event: EventView) -> (DriverView, ActionView) {
    match state {
        DriverView::Finished => abort(Failure::Finished),
        DriverView::AwaitGasPrice => match event {
            EventView::TransportFailure => abort(Failure::Transport),
            EventView::Response(body) => on_gas_price(body),
        },
        DriverView::AwaitBlockNumber { gas_price } => match event {
            EventView::TransportFailure => abort(Failure::Transport),
            EventView::Response(body) => on_block_number(gas_price, body),
        },
        DriverView::AwaitBlock { gas_price, block_number } => match event {
            EventView::TransportFailure => abort(Failure::Transport),
            EventView::Response(body) => on_block(gas_price, block_number, body),
        },
    }
}

/// The state after the events `events`, taken in turn from `state`.
pub open spec fn state_after(state: DriverView, events: Seq<EventView>) -> DriverView
    decreases events.len(),
{
    if events.len() == 0 {
        state
    } else {
        step_of(state_after(state, events.drop_last()), events.last()).0
    }
}

/// What the caller is told to do on the event at index `i` of `events`,
/// taken in turn from `state`.
pub open spec fn action_at(state: DriverView, events: Seq<EventView>, i: int) -> ActionView {
    step_of(state_after(state, events.take(i)), events[i]).1
}

impl Driver {
    /// Starts a run: the state to begin in, and the first request to send.
    pub fn start() -> (begin: (Driver, RpcRequest))
        ensures
            begin.0@ == DriverView::AwaitGasPrice,
            begin.1@ == request_for(EthRpcMethod::EthGasPrice, Seq::empty()),
    {
        (Driver::AwaitGasPrice, RpcRequest::gas_price())
    }

    /// Whether the run is over.
    pub fn is_finished(&self) -> (finished: bool)
        ensures
            finished == (self@ is Finished),
    {
        match self {
            Driver::Finished => true,
            _ => false,
        }
    }

    /// Takes one step: given what came of the request that was sent last,
    /// returns the state to go on from and what to do next.
    ///
    /// The quantities are decoded only once all three answers are in, the
    /// gas price first. Where the block's base fee is a JSON string with no
    /// character to escape, the quote is made from the text of that string.
    pub fn step(self, event: Event) -> (next: (Driver, Action))
        ensures
            (next.0@, next.1@) == step_of(self@, event@),
            self@ matches DriverView::AwaitBlock { gas_price, block_number } ==> (
            event@ matches EventView::Response(body) ==> (plain_base_fee(body) matches Some(fee)
                ==> (next.0@, next.1@) == on_base_fee(gas_price, block_number, fee))),
    {
        match self {
            Driver::Finished => (Driver::Finished, Action::Abort(Failure::Finished)),
            Driver::AwaitGasPrice => match event {
                Event::TransportFailure => (Driver::Finished, Action::Abort(Failure::Transport)),
                Event::Response(body) => match parse_response(
                    EthRpcMethod::EthGasPrice,
                    body.as_slice(),
                ) {
                    Err(e) => (Driver::Finished, Action::Abort(Failure::Protocol(e))),
                    Ok(read) => {
                        let gas_price = read.into_text();
                        (
                            Driver::AwaitBlockNumber { gas_price },
                            Action::Send(RpcRequest::block_number()),
                        )
                    },
                },
            },
            Driver::AwaitBlockNumber { gas_price } => match event {
                Event::TransportFailure => (Driver::Finished, Action::Abort(Failure::Transport)),
                Event::Response(body) => match parse_response(
                    EthRpcMethod::EthBlockNumber,
                    body.as_slice(),
                ) {
                    Err(e) => (Driver::Finished, Action::Abort(Failure::Protocol(e))),
                    Ok(read) => {
                        let block_number = read.into_text();
                        let request = RpcRequest::block_by_number(block_number.as_str());
                        (Driver::AwaitBlock { gas_price, block_number }, Action::Send(request))
                    },
                },
            },
            Driver::AwaitBlock { gas_price, block_number } => match event {
                Event::TransportFailure => (Driver::Finished, Action::Abort(Failure::Transport)),
                Event::Response(body) => match parse_response(
                    EthRpcMethod::EthGetBlockByNumber,
                    body.as_slice(),
                ) {
                    Err(e) => (Driver::Finished, Action::Abort(Failure::Protocol(e))),
                    Ok(read) => {
                        let base_fee = read.into_text();
                        proof {
                            if plain_base_fee(body@) is Some {
                                let fee = plain_base_fee(body@)->0;
                                assert(base_fee@ == decorate(fee, false, true));
                                lemma_quotes_are_ignored(fee);
                            }
                        }
                        match quote_from_hex(gas_price.as_str(), base_fee.as_str(), block_number) {
                            Err(e) => (Driver::Finished, Action::Abort(Failure::Decode(e))),
                            Ok(quote) => (Driver::Finished, Action::Finish(quote)),
                        }
                    },
                },
            },
        }
    }
}

/// Once a run is over it stays over, whatever events follow.
pub proof fn lemma_finished_is_final(events: Seq<EventView>)
    ensures
        state_after(DriverView::Finished, events) == DriverView::Finished,
    decreases events.len(),
{
    if events.len() > 0 {
        lemma_finished_is_final(events.drop_last());
    }
}

/// The state after `events` is the state after the first `i` of them,
/// followed by the rest.
proof fn lemma_state_after_split(state: DriverView, events: Seq<EventView>, i: int)
    requires
        0 <= i <= events.len(),
    ensures
        state_after(state, events) == state_after(
            state_after(state, events.take(i)),
            events.skip(i),
        ),
    decreases events.len() - i,
{
    if i == events.len() {
        assert(events.take(i) =~= events);
        assert(events.skip(i) =~= Seq::<EventView>::empty());
    } else {
        assert(events.drop_last().take(i) =~= events.take(i));
        assert(events.drop_last().skip(i) =~= events.skip(i).drop_last());
        assert(events.skip(i).last() == events.last());
        lemma_state_after_split(state, events.drop_last(), i);
    }
}

/// A step that tells the caller to finish or to abort ends the run, and a
/// step that tells it to send a request does not.
pub proof fn lemma_run_ends_with_report(state: DriverView, event: EventView)
    ensures
        step_of(state, event).1 is Send <==> !(step_of(state, event).0 is Finished),
{
}

/// A transport failure on any request ends the run without a quote: the
/// caller is told to abort, and the run is over.
pub proof fn lemma_transport_failure_aborts(state: DriverView)
    ensures
        step_of(state, EventView::TransportFailure).0 == DriverView::Finished,
        step_of(state, EventView::TransportFailure).1 is Abort,
        !(state is Finished) ==> step_of(state, EventView::TransportFailure).1 == ActionView::Abort(
            Failure::Transport,
        ),
{
}

/// A run in which a request meets a transport failure never reports a
/// quote: not before the failure, not on it, and not after it.
pub proof fn lemma_no_quote_in_failed_run(
    state: DriverView,
    events: Seq<EventView>,
    failed: int,
    j: int,
)
    requires
        0 <= failed < events.len(),
        events[failed] is TransportFailure,
        !(state_after(state, events.take(failed)) is Finished),
        0 <= j < events.len(),
    ensures
        !(action_at(state, events, j) is Finish),
{
    if j < failed {
        if action_at(state, events, j) is Finish {
            // The run would be over after event `j`, and still be so at `failed`.
            let upto = events.take(failed);
            assert(upto.take(j + 1) =~= events.take(j + 1));
            assert(events.take(j + 1).drop_last() =~= events.take(j));
            assert(events.take(j + 1).last() == events[j]);
            assert(state_after(state, events.take(j + 1)) is Finished);
            lemma_state_after_split(state, upto, j + 1);
            lemma_finished_is_final(upto.skip(j + 1));
        }
    } else if j > failed {
        let upto = events.take(j);
        assert(upto.take(failed + 1) =~= events.take(failed + 1));
        assert(events.take(failed + 1).drop_last() =~= events.take(failed));
        assert(events.take(failed + 1).last() == events[failed]);
        assert(state_after(state, events.take(failed + 1)) is Finished);
        lemma_state_after_split(state, upto, failed + 1);
        lemma_finished_is_final(upto.skip(failed + 1));
    }
}

/// A run whose three answers can all be read goes in order: the gas price
/// is followed by the request for the block number, the block number by the
/// request for the block of that number, and the block by the end of the
/// run, with the quote from the gas price and the block's base fee or with
/// the reason why one of the two could not be decoded.
pub proof fn lemma_run_in_order(
    gas_price_body: Seq<u8>,
    block_number_body: Seq<u8>,
    block_body: Seq<u8>,
    gas_price: RpcResultView,
    block_number: RpcResultView,
    base_fee: RpcResultView,
)
    requires
        response_of(EthRpcMethod::EthGasPrice, gas_price_body) == Ok::<RpcResultView, RpcError>(
            gas_price,
        ),
        response_of(EthRpcMethod::EthBlockNumber, block_number_body) == Ok::<
            RpcResultView,
            RpcError,
        >(block_number),
        response_of(EthRpcMethod::EthGetBlockByNumber, block_body) == Ok::<RpcResultView, RpcError>(
            base_fee,
        ),
    ensures
        ({
            let events = seq![
                EventView::Response(gas_price_body),
                EventView::Response(block_number_body),
                EventView::Response(block_body),
            ];
            let start = DriverView::AwaitGasPrice;
            &&& action_at(start, events, 0) == ActionView::Send(
                request_for(EthRpcMethod::EthBlockNumber, Seq::empty()),
            )
            &&& action_at(start, events, 1) == ActionView::Send(
                request_for(EthRpcMethod::EthGetBlockByNumber, block_number.text()),
            )
            &&& action_at(start, events, 2) == on_base_fee(
                gas_price.text(),
                block_number.text(),
                base_fee.text(),
            ).1
            &&& state_after(start, events) == DriverView::Finished
        }),
{
    let events = seq![
        EventView::Response(gas_price_body),
        EventView::Response(block_number_body),
        EventView::Response(block_body),
    ];
    let start = DriverView::AwaitGasPrice;
    let none = events.take(0);
    let one = events.take(1);
    let two = events.take(2);
    assert(none =~= Seq::<EventView>::empty());
    assert(one.drop_last() =~= none);
    assert(two.drop_last() =~= one);
    assert(events.drop_last() =~= two);
    assert(state_after(start, none) == start);
    assert(state_after(start, one) == DriverView::AwaitBlockNumber {
        gas_price: gas_price.text(),
    });
    assert(state_after(start, two) == DriverView::AwaitBlock {
        gas_price: gas_price.text(),
        block_number: block_number.text(),
    });
}

/// When the block that comes back has no `baseFeePerGas`, the run ends with
/// the report that this member is missing.
pub proof fn lemma_block_without_base_fee(
    gas_price: Seq<char>,
    block_number: Seq<char>,
    body: Seq<u8>,
)
    requires
        json_parse(body) matches Some(document) && document.member(result_key()) matches Some(
            block,
        ) && block is Object && block.member(base_fee_key()) is None,
    ensures
        step_of(DriverView::AwaitBlock { gas_price, block_number }, EventView::Response(body))
            == abort(Failure::Protocol(RpcError::MissingField(Field::BaseFeePerGas))),
{
}

} // verus!
