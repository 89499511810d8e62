use door_node::connectivity::{
    advance, establish_outcome, pending_step, AuthScheme, ConnectivityError, EstablishPhase,
    EstablishStep, NetworkCredentials,
};

#[test]
fn all_steps_succeeding_establishes() {
    assert_eq!(establish_outcome(true, true, true, true), Ok(()));
}

#[test]
fn configuration_failure_is_reported() {
    assert_eq!(
        establish_outcome(false, true, true, true),
        Err(ConnectivityError::ConfigurationError)
    );
}

#[test]
fn start_failure_is_reported() {
    assert_eq!(
        establish_outcome(true, false, true, true),
        Err(ConnectivityError::StartError)
    );
}

#[test]
fn association_failure_is_reported() {
    assert_eq!(
        establish_outcome(true, true, false, true),
        Err(ConnectivityError::AssociationError)
    );
}

#[test]
fn address_failure_is_reported() {
    assert_eq!(
        establish_outcome(true, true, true, false),
        Err(ConnectivityError::AddressAcquisitionError)
    );
}

#[test]
fn association_failure_never_reaches_address_step() {
    let with_good_address = establish_outcome(true, true, false, true);
    let with_bad_address = establish_outcome(true, true, false, false);
    assert_eq!(with_good_address, with_bad_address);
    assert_eq!(with_good_address, Err(ConnectivityError::AssociationError));
    assert_ne!(with_good_address, Err(ConnectivityError::AddressAcquisitionError));
}

#[test]
fn phases_ask_for_the_steps_in_order() {
    assert_eq!(pending_step(EstablishPhase::Idle), Some(EstablishStep::Configure));
    assert_eq!(pending_step(EstablishPhase::Configured), Some(EstablishStep::Start));
    assert_eq!(pending_step(EstablishPhase::Started), Some(EstablishStep::Associate));
    assert_eq!(
        pending_step(EstablishPhase::Associated),
        Some(EstablishStep::AcquireAddress)
    );
    assert_eq!(pending_step(EstablishPhase::NetworkReady), None);
}

#[test]
fn advance_moves_forward_or_fails_with_the_step_error() {
    assert_eq!(advance(EstablishPhase::Idle, true), Ok(EstablishPhase::Configured));
    assert_eq!(advance(EstablishPhase::Configured, true), Ok(EstablishPhase::Started));
    assert_eq!(advance(EstablishPhase::Started, true), Ok(EstablishPhase::Associated));
    assert_eq!(
        advance(EstablishPhase::Associated, true),
        Ok(EstablishPhase::NetworkReady)
    );
    assert_eq!(
        advance(EstablishPhase::Idle, false),
        Err(ConnectivityError::ConfigurationError)
    );
    assert_eq!(
        advance(EstablishPhase::Configured, false),
        Err(ConnectivityError::StartError)
    );
    assert_eq!(
        advance(EstablishPhase::Started, false),
        Err(ConnectivityError::AssociationError)
    );
    assert_eq!(
        advance(EstablishPhase::Associated, false),
        Err(ConnectivityError::AddressAcquisitionError)
    );
}

#[test]
fn credentials_keep_their_fields() {
    let c = NetworkCredentials::new(String::from("attic"), String::from("orange-teapot"));
    assert_eq!(c.network_name, "attic");
    assert_eq!(c.passphrase, "orange-teapot");
    assert_eq!(c.auth, AuthScheme::Wpa2Personal);
}
