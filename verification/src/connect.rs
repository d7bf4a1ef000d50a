//! The order in which two reliable-connection QPs are brought up against each
//! other in the connection benchmarks: both to INIT, the server then the
//! client to RTR (each against the other's QP number), and the client to RTS.
use vstd::prelude::*;

verus! {

/// The states of an RC queue pair that the handshake passes through.
#[derive(Clone, Copy, Debug, PartialEq, Eq, Structural)]
pub enum QpState {
    Reset,
    Init,
    Rtr,
    Rts,
}

/// The two ends of the connection.
#[derive(Clone, Copy, Debug, PartialEq, Eq, Structural)]
pub enum Side {
    Client,
    Server,
}

/// One transition of one QP.
#[derive(Clone, Copy, Debug, PartialEq, Eq, Structural)]
pub enum HandshakeStep {
    /// RESET to INIT
    ToInit(Side),
    /// INIT to RTR, addressed to the other side's QP
    InitToRtr(Side),
    /// RTR to RTS
    RtrToRts(Side),
}

impl HandshakeStep {
    pub open spec fn side(self) -> Side {
        match self {
            HandshakeStep::ToInit(s) => s,
            HandshakeStep::InitToRtr(s) => s,
            HandshakeStep::RtrToRts(s) => s,
        }
    }

    /// The state the QP must be in for the step.
    pub open spec fn from_state(self) -> QpState {
        match self {
            HandshakeStep::ToInit(_) => QpState::Reset,
            HandshakeStep::InitToRtr(_) => QpState::Init,
            HandshakeStep::RtrToRts(_) => QpState::Rtr,
        }
    }

    /// The state the QP is in after the step.
    pub open spec fn to_state(self) -> QpState {
        match self {
            HandshakeStep::ToInit(_) => QpState::Init,
            HandshakeStep::InitToRtr(_) => QpState::Rtr,
            HandshakeStep::RtrToRts(_) => QpState::Rts,
        }
    }
}

/// The steps of the handshake, in order.
pub open spec fn spec_handshake_plan() -> Seq<HandshakeStep> {
    seq![
        HandshakeStep::ToInit(Side::Client),
        HandshakeStep::ToInit(Side::Server),
        HandshakeStep::InitToRtr(Side::Server),
        HandshakeStep::InitToRtr(Side::Client),
        HandshakeStep::RtrToRts(Side::Client),
    ]
}

/// The states of the client and server QPs after the first `k` steps of
/// `plan`, both starting in RESET.
pub open spec fn states_after(plan: Seq<HandshakeStep>, k: nat) -> (QpState, QpState)
    decreases k,
{
    if k == 0 || k > plan.len() {
        (QpState::Reset, QpState::Reset)
    } else {
        let (c, s) = states_after(plan, (k - 1) as nat);
        let step = plan[k - 1];
        match step.side() {
            Side::Client => (step.to_state(), s),
            Side::Server => (c, step.to_state()),
        }
    }
}

/// The steps of the handshake, in the order in which they are to be taken;
/// the profile's tick `k + 1` is recorded after step `k`.
pub fn handshake_plan() -> (plan: Vec<HandshakeStep>)
    ensures
        plan@ == spec_handshake_plan(),
{
    let mut plan = Vec::new();
    plan.push(HandshakeStep::ToInit(Side::Client));
    plan.push(HandshakeStep::ToInit(Side::Server));
    plan.push(HandshakeStep::InitToRtr(Side::Server));
    plan.push(HandshakeStep::InitToRtr(Side::Client));
    plan.push(HandshakeStep::RtrToRts(Side::Client));
    assert(plan@ =~= spec_handshake_plan());
    plan
}

/// Every step of the handshake finds its QP in the state the step starts
/// from, and at the end the client is ready to send and the server ready to
/// receive.
pub proof fn lemma_handshake_legal()
    ensures
        forall|k: int|
            #![trigger spec_handshake_plan()[k]]
            0 <= k < spec_handshake_plan().len() ==> ({
                let (c, s) = states_after(spec_handshake_plan(), k as nat);
                let step = spec_handshake_plan()[k];
                match step.side() {
                    Side::Client => c == step.from_state(),
                    Side::Server => s == step.from_state(),
                }
            }),
        states_after(spec_handshake_plan(), 5) == (QpState::Rts, QpState::Rtr),
{
    let p = spec_handshake_plan();
    reveal_with_fuel(states_after, 6);
    assert(states_after(p, 0) == (QpState::Reset, QpState::Reset));
    assert(states_after(p, 1) == (QpState::Init, QpState::Reset));
    assert(states_after(p, 2) == (QpState::Init, QpState::Init));
    assert(states_after(p, 3) == (QpState::Init, QpState::Rtr));
    assert(states_after(p, 4) == (QpState::Rtr, QpState::Rtr));
    assert(states_after(p, 5) == (QpState::Rts, QpState::Rtr));
}

} // verus!
