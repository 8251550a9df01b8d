//! Fee estimation for a Soroban `simulateTransaction` round trip: what is
//! sent, how the reply is judged, and how a fee breakdown is derived from it
//! or, when the RPC is out of reach, estimated from the amount moved.
use crate::text::{parse_i64, parse_i64_spec};
use vstd::prelude::*;
use vstd::string::StringExecFns;

verus! {

/// `serde_json::Value`: a JSON value, carried through unread.
#[verifier::external_type_specification]
#[verifier::external_body]
pub struct ExJsonValue(serde_json::Value);

/// Base network fee in stroops.
pub const BASE_FEE: i64 = 100;

/// Network load, in basis points, from which surge pricing applies.
pub const HIGH_LOAD_BPS: u32 = 8000;

/// Resource fee assumed when the simulation's `minResourceFee` is not a number.
pub const DEFAULT_RESOURCE_FEE: i64 = 1000;

/// Reply of `simulateTransaction`.
pub struct SimulateTransactionResult {
    /// Minimum resource fee in stroops, as the RPC writes it (a decimal string).
    pub min_resource_fee: String,
    /// Error message if simulation failed.
    pub error: Option<String>,
    /// Events emitted during simulation.
    pub events: Vec<serde_json::Value>,
}

/// Parsed fee breakdown from a simulation result.
#[derive(Debug, Clone, Copy, PartialEq, Eq, Structural)]
pub struct FeeBreakdown {
    pub base_fee: i64,
    pub resource_fee: i64,
    pub total_fee: i64,
    pub surge_multiplier: u32,
    pub high_load: bool,
    pub would_succeed: bool,
}

/// Why a `simulateTransaction` call produced no result.
#[derive(Debug, PartialEq, Eq)]
pub enum RpcFailure {
    /// The request could not be sent or the reply not read.
    Transport(String),
    /// The RPC answered with a JSON-RPC error carrying this message.
    Rpc(String),
    /// The RPC answered with neither a result nor an error.
    EmptyResult,
}

/// Surge multiplier (percent) and high-load flag for a network load in basis points.
pub open spec fn surge_for(network_load_bps: u32) -> (u32, bool) {
    if network_load_bps >= HIGH_LOAD_BPS {
        (200u32, true)
    } else {
        (100u32, false)
    }
}

/// Integer division rounding toward zero, as Rust's `/` does.
pub open spec fn div_toward_zero(a: int, b: int) -> int {
    if a >= 0 {
        a / b
    } else {
        -((-a) / b)
    }
}

/// Total fee: base plus resource fee, scaled by the surge multiplier in percent.
pub open spec fn total_fee_for(base_fee: int, resource_fee: int, surge_multiplier: u32) -> int {
    div_toward_zero((base_fee + resource_fee) * surge_multiplier, 100)
}

/// The scaled fee computation stays within `i64`.
pub open spec fn fee_in_range(resource_fee: int, network_load_bps: u32) -> bool {
    &&& i64::MIN <= BASE_FEE + resource_fee <= i64::MAX
    &&& i64::MIN <= (BASE_FEE + resource_fee) * surge_for(network_load_bps).0 <= i64::MAX
}

/// The breakdown for a given resource fee, load and success flag.
pub open spec fn breakdown_for(resource_fee: i64, network_load_bps: u32, would_succeed: bool) -> FeeBreakdown {
    FeeBreakdown {
        base_fee: BASE_FEE,
        resource_fee,
        total_fee: total_fee_for(BASE_FEE as int, resource_fee as int, surge_for(network_load_bps).0) as i64,
        surge_multiplier: surge_for(network_load_bps).0,
        high_load: surge_for(network_load_bps).1,
        would_succeed,
    }
}

/// The resource fee the heuristic assumes for `amount`: a thousandth of it, at least 100.
pub open spec fn heuristic_resource_fee(amount: i64) -> i64 {
    let scaled = div_toward_zero(amount as int, 1000);
    if scaled < 100 {
        100
    } else {
        scaled as i64
    }
}

/// The resource fee taken from a simulation's `minResourceFee` text.
pub open spec fn simulated_resource_fee(min_resource_fee: Seq<char>) -> i64 {
    match parse_i64_spec(min_resource_fee) {
        Some(v) => v,
        None => DEFAULT_RESOURCE_FEE,
    }
}

/// The fee breakdown that a finished simulation yields.
pub open spec fn simulated_breakdown(result: SimulateTransactionResult, network_load_bps: u32) -> FeeBreakdown {
    breakdown_for(
        simulated_resource_fee(result.min_resource_fee@),
        network_load_bps,
        result.error is None,
    )
}

/// The breakdown a simulation call yields: the simulated fee when a result
/// without error came back, the heuristic estimate for `amount` otherwise.
pub open spec fn outcome_breakdown(
    outcome: Result<SimulateTransactionResult, RpcFailure>,
    amount: i64,
    network_load_bps: u32,
) -> FeeBreakdown {
    match outcome {
        Ok(result) => if result.error is None {
            simulated_breakdown(result, network_load_bps)
        } else {
            breakdown_for(heuristic_resource_fee(amount), network_load_bps, true)
        },
        Err(_) => breakdown_for(heuristic_resource_fee(amount), network_load_bps, true),
    }
}

/// The simulation's fee can be scaled without leaving `i64`.
pub open spec fn simulation_in_range(result: SimulateTransactionResult, network_load_bps: u32) -> bool {
    fee_in_range(simulated_resource_fee(result.min_resource_fee@) as int, network_load_bps)
}

/// The placeholder transaction envelope sent for simulation.
pub open spec fn placeholder_envelope(target: Seq<char>, function: Seq<char>) -> Seq<char> {
    "AAAAAgAAAAEAAAAA"@ + target + function + "AAAAAAAAAAA="@
}

/// Surge multiplier (percent) and high-load flag for a network load in basis points.
pub fn surge_pricing(network_load_bps: u32) -> (r: (u32, bool))
    ensures
        r == surge_for(network_load_bps),
{
    if network_load_bps >= HIGH_LOAD_BPS {
        (200u32, true)
    } else {
        (100u32, false)
    }
}

impl FeeBreakdown {
    /// Base fee, the given resource fee, and the total scaled by the surge
    /// multiplier that the network load calls for.
    pub fn with_resource_fee(resource_fee: i64, network_load_bps: u32, would_succeed: bool) -> (r: FeeBreakdown)
        requires
            fee_in_range(resource_fee as int, network_load_bps),
        ensures
            r == breakdown_for(resource_fee, network_load_bps, would_succeed),
    {
        let (surge_multiplier, high_load) = surge_pricing(network_load_bps);
        let total_fee = (BASE_FEE + resource_fee) * (surge_multiplier as i64) / 100;
        FeeBreakdown {
            base_fee: BASE_FEE,
            resource_fee,
            total_fee,
            surge_multiplier,
            high_load,
            would_succeed,
        }
    }

    /// Heuristic fee estimate used when the RPC is unavailable: the resource
    /// fee is a thousandth of `amount` but at least 100, and success is assumed.
    pub fn heuristic_estimate(amount: i64, network_load_bps: u32) -> (r: FeeBreakdown)
        ensures
            r == breakdown_for(heuristic_resource_fee(amount), network_load_bps, true),
            r.resource_fee >= 100,
            r.would_succeed,
    {
        let scaled = amount / 1000;
        assert(scaled == div_toward_zero(amount as int, 1000));
        assert(-9223372036854776 <= scaled <= 9223372036854776) by (nonlinear_arith)
            requires
                scaled == div_toward_zero(amount as int, 1000),
                i64::MIN <= amount <= i64::MAX,
        ;
        let resource_fee: i64 = if scaled < 100 {
            100
        } else {
            scaled
        };
        FeeBreakdown::with_resource_fee(resource_fee, network_load_bps, true)
    }

    /// Fee breakdown from a finished simulation: the resource fee is its
    /// `minResourceFee` (1000 when that is not a number), and the transaction
    /// would succeed when the simulation reports no error.
    pub fn from_simulation(result: &SimulateTransactionResult, network_load_bps: u32) -> (r: FeeBreakdown)
        requires
            simulation_in_range(*result, network_load_bps),
        ensures
            r == simulated_breakdown(*result, network_load_bps),
    {
        let would_succeed = result.error.is_none();
        let resource_fee = resource_fee_of(result.min_resource_fee.as_str());
        FeeBreakdown::with_resource_fee(resource_fee, network_load_bps, would_succeed)
    }

    /// The breakdown for the outcome of a simulation call: the simulated fee
    /// when the call produced a result without error; when the call failed
    /// or the simulation reported an error, the heuristic estimate.
    pub fn from_outcome(
        outcome: &Result<SimulateTransactionResult, RpcFailure>,
        amount: i64,
        network_load_bps: u32,
    ) -> (r: FeeBreakdown)
        requires
            outcome matches Ok(result) ==> (result.error is None ==> simulation_in_range(
                *result,
                network_load_bps,
            )),
        ensures
            r == outcome_breakdown(*outcome, amount, network_load_bps),
    {
        match outcome {
            Ok(result) => {
                if result.error.is_none() {
                    FeeBreakdown::from_simulation(result, network_load_bps)
                } else {
                    FeeBreakdown::heuristic_estimate(amount, network_load_bps)
                }
            },
            Err(_) => FeeBreakdown::heuristic_estimate(amount, network_load_bps),
        }
    }
}

/// The resource fee in a simulation's `minResourceFee` text, or 1000 when it is not a number.
pub fn resource_fee_of(min_resource_fee: &str) -> (fee: i64)
    ensures
        fee == simulated_resource_fee(min_resource_fee@),
{
    match parse_i64(min_resource_fee) {
        Some(v) => v,
        None => DEFAULT_RESOURCE_FEE,
    }
}

/// The placeholder transaction envelope sent to `simulateTransaction` for a
/// call of `function` on `target`.
pub fn placeholder_xdr(target: &str, function: &str) -> (envelope: String)
    ensures
        envelope@ == placeholder_envelope(target@, function@),
{
    let mut envelope = String::from_str("AAAAAgAAAAEAAAAA");
    envelope.append(target);
    envelope.append(function);
    envelope.append("AAAAAAAAAAA=");
    envelope
}

/// The outcome of a JSON-RPC reply to `simulateTransaction`: an error
/// message in the reply wins; otherwise the result, if there is one.
pub fn simulation_outcome(
    error_message: Option<String>,
    result: Option<SimulateTransactionResult>,
) -> (r: Result<SimulateTransactionResult, RpcFailure>)
    ensures
        match error_message {
            Some(m) => r == Err::<SimulateTransactionResult, RpcFailure>(RpcFailure::Rpc(m)),
            None => match result {
                Some(res) => r == Ok::<SimulateTransactionResult, RpcFailure>(res),
                None => r == Err::<SimulateTransactionResult, RpcFailure>(RpcFailure::EmptyResult),
            },
        },
{
    match error_message {
        Some(m) => Err(RpcFailure::Rpc(m)),
        None => match result {
            Some(res) => Ok(res),
            None => Err(RpcFailure::EmptyResult),
        },
    }
}

impl RpcFailure {
    /// The message that reports this failure.
    pub fn message(&self) -> (m: String)
        ensures
            m@ == match self {
                RpcFailure::Transport(t) => t@,
                RpcFailure::Rpc(t) => "RPC error: "@ + t@,
                RpcFailure::EmptyResult => "empty RPC result"@,
            },
    {
        match self {
            RpcFailure::Transport(t) => t.clone(),
            RpcFailure::Rpc(t) => {
                let mut m = String::from_str("RPC error: ");
                m.append(t.as_str());
                m
            },
            RpcFailure::EmptyResult => String::from_str("empty RPC result"),
        }
    }
}

/// Surge pricing doubles the fee under high load: the total is the base plus
/// resource fee below 8000 basis points of load and twice that from there on,
/// and the breakdown reports high load exactly then.
pub proof fn law_surge_pricing(resource_fee: i64, network_load_bps: u32, would_succeed: bool)
    requires
        fee_in_range(resource_fee as int, network_load_bps),
    ensures
        ({
            let b = breakdown_for(resource_fee, network_load_bps, would_succeed);
            &&& b.high_load == (network_load_bps >= 8000)
            &&& b.surge_multiplier == (if b.high_load { 200u32 } else { 100u32 })
            &&& b.total_fee == (if b.high_load {
                2 * (BASE_FEE + resource_fee)
            } else {
                BASE_FEE + resource_fee
            })
        }),
{
    let x = BASE_FEE + resource_fee;
    assert(div_toward_zero(x * 100, 100) == x) by (nonlinear_arith);
    assert(div_toward_zero(x * 200, 100) == 2 * x) by (nonlinear_arith);
}

/// Whenever the network's simulation is out of reach or reports an error,
/// the estimate falls back to the heuristic one, which assumes success; a
/// simulated estimate always reports success.
pub proof fn law_fallback_on_failure(
    outcome: Result<SimulateTransactionResult, RpcFailure>,
    amount: i64,
    network_load_bps: u32,
)
    ensures
        (outcome is Err || outcome->Ok_0.error is Some) ==> outcome_breakdown(
            outcome,
            amount,
            network_load_bps,
        ) == breakdown_for(heuristic_resource_fee(amount), network_load_bps, true),
        outcome_breakdown(outcome, amount, network_load_bps).would_succeed,
{
}

} // verus!
