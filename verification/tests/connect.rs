use xhttp_tunnel::connect::{
    begin_relay, listen_address, ssh_address, ConnectOutcome, Connecting, RetryStep,
};
use xhttp_tunnel::connect::ConnectOutcome::{Connected, Failed, TimedOut};
use xhttp_tunnel::error::TunnelError;

/// The attempts that a series makes, and how it ends.
fn series(outcomes: &[ConnectOutcome]) -> (u32, Option<Result<(), TunnelError>>) {
    let mut c = Connecting::new();
    for outcome in outcomes {
        let attempt = c.attempt();
        match c.record(*outcome) {
            RetryStep::Connected => return (attempt, Some(Ok(()))),
            RetryStep::GiveUp(e) => return (attempt, Some(Err(e))),
            RetryStep::Again(next) => c = next,
        }
    }
    (c.attempt() - 1, None)
}

#[test]
fn addresses() {
    assert_eq!(ssh_address(22), "127.0.0.1:22");
    assert_eq!(ssh_address(65535), "127.0.0.1:65535");
    assert_eq!(listen_address(8000), "[::]:8000");
    assert_eq!(listen_address(0), "[::]:0");
}

#[test]
fn single_attempt() {
    assert_eq!(begin_relay(Connected, None), Ok(None));
    assert_eq!(begin_relay(Connected, Some(vec![1])), Ok(Some(vec![1])));
    assert_eq!(begin_relay(Failed, Some(vec![1])), Err(TunnelError::ConnectFailed));
    assert_eq!(begin_relay(TimedOut, None), Err(TunnelError::ConnectTimeout));
}

#[test]
fn first_success_ends_a_series() {
    assert_eq!(series(&[Connected, Failed]), (1, Some(Ok(()))));
    assert_eq!(series(&[Failed, Connected]), (2, Some(Ok(()))));
    assert_eq!(series(&[TimedOut, Failed, Connected]), (3, Some(Ok(()))));
}

#[test]
fn series_gives_up_after_three_failures() {
    assert_eq!(series(&[Failed]), (1, None));
    assert_eq!(series(&[Failed, TimedOut]), (2, None));
    assert_eq!(series(&[Failed, Failed, TimedOut]), (3, Some(Err(TunnelError::ConnectTimeout))));
    assert_eq!(series(&[TimedOut, TimedOut, Failed]), (3, Some(Err(TunnelError::ConnectFailed))));
}
