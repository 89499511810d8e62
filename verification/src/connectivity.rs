//! Connectivity establishment: the linear state machine that brings
//! the device from radio-off to IP-reachable at boot.
//!
//! Four steps run strictly in order — apply the client configuration,
//! start the radio, associate with the access point, wait for an
//! address on the interface. There is no retry or backoff: the first
//! failing step aborts the whole procedure with that step's error, and
//! no later step is attempted.

use vstd::prelude::*;

verus! {

/// Credentials the client configuration is built from, fixed at boot.
pub struct NetworkCredentials {
    pub network_name: String,
    pub passphrase: String,
    pub auth: AuthScheme,
}

/// The one authentication scheme this node supports.
#[derive(Clone, Copy, Debug, PartialEq, Eq, Structural)]
pub enum AuthScheme {
    Wpa2Personal,
}

impl NetworkCredentials {
    /// Credentials for the given network, under the supported scheme.
    pub fn new(network_name: String, passphrase: String) -> (c: NetworkCredentials)
        ensures
            c.network_name@ == network_name@,
            c.passphrase@ == passphrase@,
            c.auth == AuthScheme::Wpa2Personal,
    {
        NetworkCredentials { network_name, passphrase, auth: AuthScheme::Wpa2Personal }
    }
}

/// Why establishment failed: one variant per step of the sequence.
#[derive(Clone, Copy, Debug, PartialEq, Eq, Structural)]
pub enum ConnectivityError {
    ConfigurationError,
    StartError,
    AssociationError,
    AddressAcquisitionError,
}

/// The radio operations the establishment sequence asks for, in order.
#[derive(Clone, Copy, Debug, PartialEq, Eq, Structural)]
pub enum EstablishStep {
    Configure,
    Start,
    Associate,
    AcquireAddress,
}

/// How far establishment has come.
#[derive(Clone, Copy, Debug, PartialEq, Eq, Structural)]
pub enum EstablishPhase {
    Idle,
    Configured,
    Started,
    Associated,
    NetworkReady,
}

/// The step a phase asks for next, or nothing once the network is ready.
pub open spec fn spec_pending_step(phase: EstablishPhase) -> Option<EstablishStep> {
    match phase {
        EstablishPhase::Idle => Some(EstablishStep::Configure),
        EstablishPhase::Configured => Some(EstablishStep::Start),
        EstablishPhase::Started => Some(EstablishStep::Associate),
        EstablishPhase::Associated => Some(EstablishStep::AcquireAddress),
        EstablishPhase::NetworkReady => None,
    }
}

/// The phase reached when the pending step succeeds.
pub open spec fn spec_phase_after(phase: EstablishPhase) -> EstablishPhase {
    match phase {
        EstablishPhase::Idle => EstablishPhase::Configured,
        EstablishPhase::Configured => EstablishPhase::Started,
        EstablishPhase::Started => EstablishPhase::Associated,
        EstablishPhase::Associated => EstablishPhase::NetworkReady,
        EstablishPhase::NetworkReady => EstablishPhase::NetworkReady,
    }
}

/// The error reported when the pending step fails.
pub open spec fn spec_failure_of(phase: EstablishPhase) -> ConnectivityError {
    match phase {
        EstablishPhase::Idle => ConnectivityError::ConfigurationError,
        EstablishPhase::Configured => ConnectivityError::StartError,
        EstablishPhase::Started => ConnectivityError::AssociationError,
        EstablishPhase::Associated => ConnectivityError::AddressAcquisitionError,
        EstablishPhase::NetworkReady => ConnectivityError::AddressAcquisitionError,
    }
}

/// The radio operation to perform next in the given phase, or nothing
/// once establishment is complete.
pub fn pending_step(phase: EstablishPhase) -> (r: Option<EstablishStep>)
    ensures
        r == spec_pending_step(phase),
{
    match phase {
        EstablishPhase::Idle => Some(EstablishStep::Configure),
        EstablishPhase::Configured => Some(EstablishStep::Start),
        EstablishPhase::Started => Some(EstablishStep::Associate),
        EstablishPhase::Associated => Some(EstablishStep::AcquireAddress),
        EstablishPhase::NetworkReady => None,
    }
}

/// Applies the outcome of the pending radio operation: success moves to
/// the next phase, failure aborts with that phase's error.
pub fn advance(phase: EstablishPhase, step_ok: bool) -> (r: Result<
    EstablishPhase,
    ConnectivityError,
>)
    requires
        spec_pending_step(phase) is Some,
    ensures
        step_ok ==> r == Ok::<EstablishPhase, ConnectivityError>(spec_phase_after(phase)),
        !step_ok ==> r == Err::<EstablishPhase, ConnectivityError>(spec_failure_of(phase)),
{
    if step_ok {
        Ok(
            match phase {
                EstablishPhase::Idle => EstablishPhase::Configured,
                EstablishPhase::Configured => EstablishPhase::Started,
                EstablishPhase::Started => EstablishPhase::Associated,
                EstablishPhase::Associated => EstablishPhase::NetworkReady,
                EstablishPhase::NetworkReady => EstablishPhase::NetworkReady,
            },
        )
    } else {
        Err(
            match phase {
                EstablishPhase::Idle => ConnectivityError::ConfigurationError,
                EstablishPhase::Configured => ConnectivityError::StartError,
                EstablishPhase::Started => ConnectivityError::AssociationError,
                EstablishPhase::Associated => ConnectivityError::AddressAcquisitionError,
                EstablishPhase::NetworkReady => ConnectivityError::AddressAcquisitionError,
            },
        )
    }
}

/// What the whole sequence yields from the outcomes of its four steps,
/// each examined only if every earlier one succeeded.
pub open spec fn spec_establish(
    configure_ok: bool,
    start_ok: bool,
    associate_ok: bool,
    address_ok: bool,
) -> Result<(), ConnectivityError> {
    if !configure_ok {
        Err(ConnectivityError::ConfigurationError)
    } else if !start_ok {
        Err(ConnectivityError::StartError)
    } else if !associate_ok {
        Err(ConnectivityError::AssociationError)
    } else if !address_ok {
        Err(ConnectivityError::AddressAcquisitionError)
    } else {
        Ok(())
    }
}

/// Runs the establishment machine through the four step outcomes in
/// order, stopping at the first failure.
pub fn establish_outcome(
    configure_ok: bool,
    start_ok: bool,
    associate_ok: bool,
    address_ok: bool,
) -> (r: Result<(), ConnectivityError>)
    ensures
        r == spec_establish(configure_ok, start_ok, associate_ok, address_ok),
{
    let mut phase = EstablishPhase::Idle;
    match advance(phase, configure_ok) {
        Ok(p) => phase = p,
        Err(e) => return Err(e),
    }
    match advance(phase, start_ok) {
        Ok(p) => phase = p,
        Err(e) => return Err(e),
    }
    match advance(phase, associate_ok) {
        Ok(p) => phase = p,
        Err(e) => return Err(e),
    }
    match advance(phase, address_ok) {
        Ok(_) => Ok(()),
        Err(e) => Err(e),
    }
}

/// An association failure is terminal and distinguishable: whatever the
/// address step would have returned, the result is the same — so that
/// step is never reached — and it is never the address-acquisition
/// error; when the earlier steps succeeded it is exactly the
/// association error.
pub proof fn lemma_association_failure_is_terminal(
    configure_ok: bool,
    start_ok: bool,
    address_a: bool,
    address_b: bool,
)
    ensures
        spec_establish(configure_ok, start_ok, false, address_a) == spec_establish(
            configure_ok,
            start_ok,
            false,
            address_b,
        ),
        spec_establish(configure_ok, start_ok, false, address_a) is Err,
        spec_establish(configure_ok, start_ok, false, address_a) != Err::<(), ConnectivityError>(
            ConnectivityError::AddressAcquisitionError,
        ),
        configure_ok && start_ok ==> spec_establish(configure_ok, start_ok, false, address_a)
            == Err::<(), ConnectivityError>(ConnectivityError::AssociationError),
{
}

} // verus!
