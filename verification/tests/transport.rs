use herdr_mirror::transport::{
    loss_message, remember_transport, ApiTransport, Backoff, Retry, DORMANT_DELAY,
};

#[test]
fn other_transports_are_remembered_at_once() {
    let mut streak = 5u32;
    assert_eq!(remember_transport(None, &mut streak), None);
    assert_eq!(streak, 0);
    assert_eq!(remember_transport(Some(ApiTransport::Auto), &mut streak), Some(ApiTransport::Auto));
    assert_eq!(streak, 0);
}

/// Over every history of five connections: the relay is remembered just when
/// the last two fell back to it.
#[test]
fn a_fallback_is_remembered_after_two() {
    let kinds = [None, Some(ApiTransport::Socket), Some(ApiTransport::Exec)];
    for code in 0..243usize {
        let history: Vec<_> = (0..5).map(|i| kinds[code / 3usize.pow(i) % 3]).collect();
        let mut streak = 0u32;
        let mut hint = None;
        for last in &history {
            hint = remember_transport(*last, &mut streak);
        }
        let twice = history[3] == kinds[2] && history[4] == kinds[2];
        assert_eq!(hint == kinds[2], twice, "{history:?}");
        if history[4] != kinds[2] {
            assert_eq!(hint, history[4]);
        }
    }
}

const MARK: &str = "dormant";

#[test]
fn faults_climb_the_ladder() {
    let mut b = Backoff::new();
    let delays: Vec<u64> = (0..5).map(|_| b.lost("refused", MARK).delay).collect();
    assert_eq!(delays, vec![5, 10, 30, 30, 30]);
    b.connected();
    assert_eq!(b.lost("refused", MARK), Retry { delay: 5, logged: true });
}

/// A host that is dormant waits long, is logged once, and keeps the ladder.
#[test]
fn dormancy_is_logged_once_and_climbs_nothing() {
    let mut b = Backoff::new();
    assert_eq!(b.lost("dormant: stopped", MARK), Retry { delay: 300, logged: true });
    assert_eq!(b.lost("dormant: stopped", MARK), Retry { delay: DORMANT_DELAY, logged: false });
    assert_eq!(b.lost("boot failed", MARK), Retry { delay: 5, logged: true });
    assert_eq!(b.lost("dormant: stopped", MARK), Retry { delay: 300, logged: true });
    assert_eq!(b.lost("boot failed", MARK), Retry { delay: 10, logged: true });
}

/// The mark counts at the beginning only: a host may have it in its name.
#[test]
fn a_host_named_dormant_is_not_dormant() {
    let mut b = Backoff::new();
    assert_eq!(b.lost("ssh dormant-box: refused", MARK), Retry { delay: 5, logged: true });
}

#[test]
fn a_loss_is_logged_with_its_delay() {
    assert_eq!(
        loss_message("vps", "event stream closed", 10),
        "[vps] disconnected (event stream closed) — retrying in 10s"
    );
}
