//! The detector, driven by hand on a clock of its own.

use fips::net::{IpAddr, NodeAddr};
use fips::netmon::detector::{Detector, DetectorStep, NetChange, SendOutcome};
use fips::netmon::fingerprint::{NetFingerprint, PeerSourceMove};
use fips::netmon::script;
use fips::netmon::script::{all_from, peer, scripted, timer_wake, v4};
use fips::netmon::summary::NetChangeSummary;
use fips::netmon::wake::{WakeEvent, WakeSource};
use fips::netmon::{NetmonConfig, MIN_CHANGE_INTERVAL_MS};

/// How long "nothing should arrive" is watched, in milliseconds.
const QUIET_WINDOW: u128 = 30_000;

/// What the listener does.
#[derive(Clone, Copy, PartialEq)]
enum Listener {
    /// Reads every report at once.
    Reads,
    /// Reads nothing.
    Sleeps,
    /// Is gone.
    Gone,
}

/// What a run came to.
struct Run {
    /// The reports that were delivered, with their times.
    delivered: Vec<(u128, NetChange)>,
    /// Whether the detector stopped.
    stopped: bool,
    /// How many reports found the channel full.
    dropped: usize,
}

/// Runs a detector until `until` milliseconds have passed.
fn run(
    config: NetmonConfig,
    mut sampler: impl FnMut() -> NetFingerprint,
    mut wake: WakeSource,
    mut events: Vec<(u128, WakeEvent)>,
    listener: Listener,
    until: u128,
) -> Run {
    let mut now: u128 = 0;
    let mut run = Run { delivered: Vec::new(), stopped: false, dropped: 0 };
    let mut detector = Detector::new(&config, sampler());
    let mut step = DetectorStep::Wait;
    while now <= until {
        step = match step {
            DetectorStep::Wait => {
                let deadline = now + wake.timeout_ms();
                loop {
                    let event = if wake.listens() && !events.is_empty() && events[0].0 <= deadline {
                        let (at, event) = events.remove(0);
                        now = now.max(at);
                        event
                    } else {
                        now = deadline;
                        WakeEvent::Timer
                    };
                    if wake.on_event(event) {
                        break;
                    }
                }
                if now > until {
                    break;
                }
                detector.on_sample(sampler())
            }
            DetectorStep::Resample { after_ms } => {
                now += after_ms as u128;
                detector.on_sample(sampler())
            }
            DetectorStep::Report(change) => {
                let outcome = match listener {
                    Listener::Reads => SendOutcome::Delivered,
                    Listener::Sleeps if run.delivered.is_empty() => SendOutcome::Delivered,
                    Listener::Sleeps => SendOutcome::Full,
                    Listener::Gone => SendOutcome::Closed,
                };
                match outcome {
                    SendOutcome::Delivered => run.delivered.push((now, change)),
                    SendOutcome::Full => run.dropped += 1,
                    SendOutcome::Closed => {}
                }
                detector.on_sent(outcome)
            }
            DetectorStep::Hold { ms } => {
                now += ms as u128;
                DetectorStep::Wait
            }
            DetectorStep::Stop => {
                run.stopped = true;
                break;
            }
        };
    }
    run
}

/// Runs a detector on a script, with a listener that reads everything.
fn run_script(config: NetmonConfig, samples: Vec<NetFingerprint>, wake: WakeSource) -> Run {
    let mut sampler = scripted(samples);
    run(config, move || sampler.sample(), wake, Vec::new(), Listener::Reads, QUIET_WINDOW)
}

#[test]
fn steady_attachment_reports_nothing() {
    let steady = all_from(&[peer(1), peer(2)], Some(v4(192, 168, 1, 10)));
    let run = run_script(script::cfg(1, 0), vec![steady], timer_wake(1));
    assert!(run.delivered.is_empty(), "an unchanging fingerprint must produce no events");
}

#[test]
fn a_medium_change_under_a_peer_is_reported() {
    let wlan = all_from(&[peer(1)], Some(v4(192, 168, 1, 10)));
    let cell = all_from(&[peer(1)], Some(v4(10, 40, 0, 7)));
    let run = run_script(script::cfg(1, 0), vec![wlan, cell], timer_wake(1));

    let change = &run.delivered[0].1;
    assert_eq!(change.generation, 1);
    assert_eq!(change.summary.probed, 1);
    assert_eq!(
        change.summary.moved,
        vec![PeerSourceMove {
            peer: peer(1),
            before: Some(v4(192, 168, 1, 10)),
            after: Some(v4(10, 40, 0, 7)),
        }]
    );
}

#[test]
fn a_peer_losing_its_route_is_reported() {
    let up = all_from(&[peer(1)], Some(v4(192, 168, 1, 10)));
    let down = all_from(&[peer(1)], None);
    let run = run_script(script::cfg(1, 0), vec![up, down], timer_wake(1));

    let change = &run.delivered[0].1;
    assert_eq!(change.summary.moved.len(), 1);
    assert_eq!(change.summary.moved[0].after, None);
}

#[test]
fn a_peer_joining_is_absorbed_rather_than_reported() {
    let one = all_from(&[peer(1)], Some(v4(192, 168, 1, 10)));
    let two = all_from(&[peer(1), peer(2)], Some(v4(192, 168, 1, 10)));
    let run = run_script(script::cfg(1, 0), vec![one, two], timer_wake(1));
    assert!(run.delivered.is_empty(), "a peer appearing is not a medium change");
}

#[test]
fn a_peer_leaving_is_absorbed_rather_than_reported() {
    let two = all_from(&[peer(1), peer(2)], Some(v4(192, 168, 1, 10)));
    let one = all_from(&[peer(1)], Some(v4(192, 168, 1, 10)));
    let run = run_script(script::cfg(1, 0), vec![two, one], timer_wake(1));
    assert!(run.delivered.is_empty(), "a peer being reaped is not a medium change");
}

#[test]
fn a_peer_that_joins_is_compared_on_the_sample_after() {
    let source = Some(v4(192, 168, 1, 10));
    let one = all_from(&[peer(1)], source);
    let two = all_from(&[peer(1), peer(2)], source);
    let moved = NetFingerprint::for_test(&[(peer(1), source), (peer(2), Some(v4(10, 40, 0, 7)))]);
    let run = run_script(script::cfg(1, 0), vec![one, two, moved], timer_wake(1));

    assert_eq!(
        run.delivered[0].1.summary.moved,
        vec![PeerSourceMove {
            peer: peer(2),
            before: source,
            after: Some(v4(10, 40, 0, 7)),
        }],
        "the peer that joined one sample ago must be under comparison now"
    );
}

#[test]
fn churn_during_a_handover_does_not_mask_the_handover() {
    let before = all_from(&[peer(1), peer(2)], Some(v4(192, 168, 1, 10)));
    let after = all_from(&[peer(1)], Some(v4(10, 40, 0, 7)));
    let run = run_script(script::cfg(1, 0), vec![before, after], timer_wake(1));

    let change = &run.delivered[0].1;
    assert_eq!(change.summary.moved.len(), 1);
    assert_eq!(change.summary.moved[0].peer, peer(1));
}

#[test]
fn a_handover_burst_coalesces_into_one_event() {
    let wlan = all_from(&[peer(1)], Some(v4(192, 168, 1, 10)));
    let gone = all_from(&[peer(1)], None);
    let cell = all_from(&[peer(1)], Some(v4(10, 40, 0, 7)));
    let run = run_script(script::cfg(1, 250), vec![wlan, gone, cell], timer_wake(1));

    let change = &run.delivered[0].1;
    assert_eq!(change.generation, 1, "the burst must report once, not per step");
    assert_eq!(
        change.summary.moved[0].after,
        Some(v4(10, 40, 0, 7)),
        "the reported state must be the settled one, not the mid-handover one"
    );
    assert_eq!(run.delivered.len(), 1, "no second event for the same handover");
}

#[test]
fn a_flap_that_settles_back_reports_nothing() {
    let steady = all_from(&[peer(1)], Some(v4(192, 168, 1, 10)));
    let gone = all_from(&[peer(1)], None);
    let back = steady.clone();
    let run = run_script(script::cfg(1, 250), vec![steady, gone, back], timer_wake(1));
    assert!(
        run.delivered.is_empty(),
        "a fingerprint that settles back where it started is not a change"
    );
}

#[test]
fn an_unread_change_coalesces_rather_than_queues() {
    let a = all_from(&[peer(1)], Some(v4(192, 168, 1, 10)));
    let b = all_from(&[peer(1)], Some(v4(10, 40, 0, 7)));
    let c = all_from(&[peer(1)], Some(v4(172, 16, 3, 2)));
    let mut sampler = scripted(vec![a, b, c]);
    let run = run(
        script::cfg(1, 0),
        move || sampler.sample(),
        timer_wake(1),
        Vec::new(),
        Listener::Sleeps,
        10_000,
    );
    assert_eq!(run.delivered.len(), 1, "the first change is delivered");
    assert_eq!(
        run.dropped, 1,
        "the second must have coalesced into the undrained first, not queued behind it"
    );
}

#[test]
fn a_closed_receiver_ends_the_poller() {
    let a = all_from(&[peer(1)], Some(v4(192, 168, 1, 10)));
    let b = all_from(&[peer(1)], Some(v4(10, 40, 0, 7)));
    let mut sampler = scripted(vec![a, b]);
    let run = run(
        script::cfg(1, 0),
        move || sampler.sample(),
        timer_wake(1),
        Vec::new(),
        Listener::Gone,
        QUIET_WINDOW,
    );
    assert!(run.stopped, "the poller must exit once nothing is listening");
}

#[test]
fn a_node_with_no_peers_reports_nothing() {
    let run = run_script(script::cfg(1, 0), vec![NetFingerprint::for_test(&[])], timer_wake(1));
    assert!(run.delivered.is_empty(), "a node holding no peers has nothing to report");
}

// === Live sampling ===

/// An off-link destination standing in for a peer. RFC 5737 TEST-NET-1, so the
/// route lookup is a route lookup and nothing is reachable there even by
/// accident. Nothing is ever sent to it.
const OFF_LINK: &str = "192.0.2.1:9";

/// The local address the host would reach `target` from.
fn route_lookup(target: &str) -> Option<IpAddr> {
    let runtime = tokio::runtime::Builder::new_current_thread().enable_io().build().unwrap();
    runtime.block_on(async {
        let socket = tokio::net::UdpSocket::bind("0.0.0.0:0").await.ok()?;
        socket.connect(target).await.ok()?;
        let text = socket.local_addr().ok()?.ip().to_string();
        let bytes: Vec<u8> = text.split('.').map(|part| part.parse().unwrap()).collect();
        Some(v4(bytes[0], bytes[1], bytes[2], bytes[3]))
    })
}

fn sample(targets: &[(NodeAddr, &str)]) -> NetFingerprint {
    let answers: Vec<_> = targets.iter().map(|(peer, at)| (*peer, route_lookup(at))).collect();
    NetFingerprint::sample(&answers)
}

#[test]
fn sampling_the_live_host_is_self_consistent() {
    let targets = [(peer(1), OFF_LINK)];
    let first = sample(&targets);
    let second = sample(&targets);
    assert_eq!(first, second, "consecutive samples of an unchanged host must agree");
    assert!(first.moved(&second).is_empty(), "and must show no peer as having moved");
}

#[test]
fn every_target_is_recorded_whether_or_not_it_has_a_route() {
    let targets = [(peer(1), OFF_LINK), (peer(2), OFF_LINK)];
    let sample = sample(&targets);
    assert_eq!(sample.sources.len(), 2);
    assert!(sample.sources.contains_key(&peer(1)));
    assert!(sample.sources.contains_key(&peer(2)));
}

#[test]
fn a_probe_never_yields_a_loopback_or_unspecified_source() {
    let sample = sample(&[(peer(1), OFF_LINK)]);
    if let Some(Some(ip)) = sample.sources.get(&peer(1)) {
        assert!(!ip.is_loopback(), "loopback source for an off-link probe");
        assert!(!ip.is_unspecified(), "unspecified source reported as an answer");
    }
}

#[test]
fn lookups_without_an_answer_are_recorded_as_no_route() {
    let sample = NetFingerprint::sample(&[
        (peer(1), Some(v4(127, 0, 0, 1))),
        (peer(2), Some(v4(0, 0, 0, 0))),
        (peer(3), None),
        (peer(4), Some(v4(127, 255, 0, 9))),
        (peer(5), Some(IpAddr::V6(1))),
        (peer(6), Some(IpAddr::V6(0))),
        (peer(7), Some(v4(126, 255, 255, 255))),
        (peer(8), Some(IpAddr::V6(2))),
    ]);
    for n in 1..=6 {
        assert_eq!(sample.sources.get(&peer(n)), Some(&None));
    }
    assert_eq!(sample.sources.get(&peer(7)), Some(&Some(v4(126, 255, 255, 255))));
    assert_eq!(sample.sources.get(&peer(8)), Some(&Some(IpAddr::V6(2))));
    assert_eq!(sample.sources.get(&peer(9)), None);
}

#[test]
fn the_later_of_two_lookups_for_a_peer_counts() {
    let sample = NetFingerprint::sample(&[
        (peer(1), Some(v4(10, 0, 0, 1))),
        (peer(2), None),
        (peer(1), Some(v4(10, 0, 0, 2))),
    ]);
    assert_eq!(sample.sources.len(), 2);
    assert_eq!(sample.sources.get(&peer(1)), Some(&Some(v4(10, 0, 0, 2))));
}

#[test]
fn fingerprints_do_not_depend_on_the_sampling_order() {
    let (a, b, c) = (v4(10, 0, 0, 1), v4(10, 0, 0, 2), v4(10, 0, 0, 3));
    let first = NetFingerprint::sample(&[(peer(2), Some(a)), (peer(3), None), (peer(1), Some(b))]);
    let second = NetFingerprint::sample(&[(peer(3), None), (peer(1), Some(b)), (peer(2), Some(a))]);
    assert_eq!(first, second);
    assert!(first.moved(&second).is_empty());
    assert_ne!(first, NetFingerprint::sample(&[(peer(2), Some(a)), (peer(3), None)]));
    assert_ne!(
        first,
        NetFingerprint::sample(&[(peer(2), Some(a)), (peer(3), None), (peer(1), Some(a))])
    );

    // The peers that moved come in the order of their addresses.
    let after = NetFingerprint::sample(&[(peer(3), Some(c)), (peer(2), None), (peer(1), Some(c))]);
    let moved: Vec<NodeAddr> = first.moved(&after).iter().map(|m| m.peer).collect();
    assert_eq!(moved, vec![peer(1), peer(2), peer(3)]);
}

#[test]
fn a_peer_appended_by_hand_is_compared_like_any_other() {
    let source = Some(v4(10, 0, 0, 1));
    let mut before = all_from(&[peer(2)], source);
    before.sources.insert(peer(1), source);
    let after = all_from(&[peer(1), peer(2)], None);
    let moved: Vec<NodeAddr> = before.moved(&after).iter().map(|m| m.peer).collect();
    assert_eq!(moved, vec![peer(2), peer(1)]);
    assert_eq!(after.moved(&before).len(), 2);
}

#[test]
fn addresses_are_ordered_byte_by_byte() {
    let mut low = [7u8; 16];
    let mut high = [7u8; 16];
    high[15] = 8;
    assert!(NodeAddr::from_bytes(low).is_before(&NodeAddr::from_bytes(high)));
    low[0] = 8;
    assert!(NodeAddr::from_bytes(high).is_before(&NodeAddr::from_bytes(low)));
    assert!(!NodeAddr::from_bytes(low).is_before(&NodeAddr::from_bytes(low)));
}

// === Summary rendering ===

#[test]
fn summary_of_nothing_moving_is_legible() {
    let summary = NetChangeSummary {
        moved: Vec::new(),
        probed: 4,
    };
    assert_eq!(summary.to_string(), "no visible difference");
}

#[test]
fn summary_names_the_peer_and_its_new_source() {
    let wlan = all_from(&[peer(0xab)], Some(v4(192, 168, 1, 10)));
    let cell = all_from(&[peer(0xab)], Some(v4(10, 40, 0, 7)));
    let summary = NetChangeSummary {
        moved: wlan.moved(&cell),
        probed: 1,
    };
    let rendered = summary.to_string();
    assert!(rendered.contains("1/1 peers"), "{}", rendered);
    assert!(rendered.contains("abababab -> 10.40.0.7"), "{}", rendered);
}

#[test]
fn summary_says_when_a_peer_lost_its_route() {
    let up = all_from(&[peer(1)], Some(v4(192, 168, 1, 10)));
    let down = all_from(&[peer(1)], None);
    let summary = NetChangeSummary {
        moved: up.moved(&down),
        probed: 1,
    };
    assert!(summary.to_string().contains("no route"), "{}", summary.to_string());
}

#[test]
fn summary_truncates_a_whole_table_moving_at_once() {
    let peers: Vec<NodeAddr> = (1..=10).map(peer).collect();
    let before = all_from(&peers, Some(v4(192, 168, 1, 10)));
    let after = all_from(&peers, Some(v4(10, 40, 0, 7)));
    let summary = NetChangeSummary {
        moved: before.moved(&after),
        probed: peers.len(),
    };
    let rendered = summary.to_string();
    assert!(rendered.contains("10/10 peers"), "{}", rendered);
    assert!(rendered.contains("+7 more"), "{}", rendered);
}

#[test]
fn summaries_read_in_full() {
    let moves: Vec<PeerSourceMove> = [Some(v4(255, 0, 10, 109)), None, Some(IpAddr::V6(1)), None]
        .into_iter()
        .enumerate()
        .map(|(i, after)| PeerSourceMove { peer: peer(i as u8 + 0x0f), before: None, after })
        .collect();
    let text = |n: usize| NetChangeSummary { moved: moves[..n].to_vec(), probed: 1234 }.to_string();
    assert_eq!(text(1), "1/1234 peers: 0f0f0f0f -> 255.0.10.109");
    assert_eq!(text(2), "2/1234 peers: 0f0f0f0f -> 255.0.10.109, 10101010 -> no route");
    assert_eq!(
        text(3),
        "3/1234 peers: 0f0f0f0f -> 255.0.10.109, 10101010 -> no route, 11111111 -> ::1"
    );
    assert_eq!(
        text(4),
        "4/1234 peers: 0f0f0f0f -> 255.0.10.109, 10101010 -> no route, 11111111 -> ::1, +1 more"
    );
}

#[test]
fn ipv6_sources_are_in_canonical_form() {
    let text = |n: u128| {
        let moved =
            vec![PeerSourceMove { peer: peer(1), before: None, after: Some(IpAddr::V6(n)) }];
        NetChangeSummary { moved, probed: 1 }.to_string().split(" -> ").nth(1).unwrap().to_string()
    };
    assert_eq!(text(0), "::");
    assert_eq!(text(0x2001_0db8_0000_0000_0000_0000_0000_0001), "2001:db8::1");
    assert_eq!(text(0x2001_0db8_0000_0001_0001_0001_0001_0001), "2001:db8:0:1:1:1:1:1");
    assert_eq!(text(0x2001_0000_0000_0001_0000_0000_0000_0001), "2001:0:0:1::1");
    assert_eq!(text(0x2001_0db8_0000_0000_0001_0000_0000_0001), "2001:db8::1:0:0:1");
    assert_eq!(text(0xfe80_0000_0000_0000_0000_0000_0000_0000), "fe80::");
    assert_eq!(text(0x0000_0000_0000_0000_0000_ffff_c0a8_010a), "::ffff:192.168.1.10");
    assert_eq!(text(u128::MAX), "ffff:ffff:ffff:ffff:ffff:ffff:ffff:ffff");
}

#[test]
fn node_addresses_keep_their_bytes() {
    let bytes: [u8; 16] = [0, 1, 2, 3, 4, 5, 6, 7, 8, 9, 10, 11, 12, 13, 14, 255];
    let addr = NodeAddr::from_bytes(bytes);
    assert_eq!(addr.to_bytes(), bytes.to_vec());
    assert_ne!(addr, peer(1));
    let moved = vec![PeerSourceMove { peer: addr, before: None, after: None }];
    let text = NetChangeSummary { moved, probed: 1 }.to_string();
    assert_eq!(text, "1/1 peers: 00010203 -> no route");
}

// === Wake source ===

#[test]
fn an_event_ping_wakes_the_detector_before_the_timer_would() {
    let wlan = all_from(&[peer(1)], Some(v4(192, 168, 1, 10)));
    let cell = all_from(&[peer(1)], Some(v4(10, 40, 0, 7)));
    let mut sampler = scripted(vec![wlan, cell]);
    let run = run(
        script::cfg(3600, 0),
        move || sampler.sample(),
        WakeSource::events(3_600_000),
        vec![(10, WakeEvent::Ping)],
        Listener::Reads,
        QUIET_WINDOW,
    );
    assert_eq!(run.delivered[0].1.summary.moved[0].after, Some(v4(10, 40, 0, 7)));
    assert_eq!(run.delivered[0].0, 10);
}

#[test]
fn the_backstop_still_fires_when_the_backend_says_nothing() {
    let wlan = all_from(&[peer(1)], Some(v4(192, 168, 1, 10)));
    let cell = all_from(&[peer(1)], Some(v4(10, 40, 0, 7)));
    let mut sampler = scripted(vec![wlan, cell]);
    let run = run(
        script::cfg(1, 0),
        move || sampler.sample(),
        WakeSource::events(1000),
        Vec::new(),
        Listener::Reads,
        QUIET_WINDOW,
    );
    assert_eq!(
        run.delivered[0].1.summary.moved[0].after,
        Some(v4(10, 40, 0, 7)),
        "the backstop must reach the change the backend missed"
    );
}

#[test]
fn a_dead_backend_falls_back_to_the_timer() {
    let wlan = all_from(&[peer(1)], Some(v4(192, 168, 1, 10)));
    let cell = all_from(&[peer(1)], Some(v4(10, 40, 0, 7)));
    let mut sampler = scripted(vec![wlan, cell]);
    let run = run(
        script::cfg(1, 0),
        move || sampler.sample(),
        WakeSource::events(1000),
        vec![(0, WakeEvent::BackendClosed)],
        Listener::Reads,
        QUIET_WINDOW,
    );
    assert_eq!(
        run.delivered[0].1.summary.moved[0].after,
        Some(v4(10, 40, 0, 7)),
        "detection must survive the backend it was using"
    );
    assert_eq!(run.delivered[0].0, 1000);
}

#[test]
fn a_dead_backend_is_not_listened_to_again() {
    let mut wake = WakeSource::events(1000);
    assert!(wake.listens());
    assert!(wake.on_event(WakeEvent::Ping));
    assert!(wake.listens());
    assert!(!wake.on_event(WakeEvent::BackendClosed));
    assert!(!wake.listens());
    assert!(wake.on_event(WakeEvent::Timer));
    assert_eq!(wake.timeout_ms(), 1000);
}

#[test]
fn the_first_wait_is_a_real_wait() {
    let mut calls = 0;
    let run = run(
        script::cfg(60, 0),
        || {
            calls += 1;
            NetFingerprint::for_test(&[])
        },
        timer_wake(60),
        Vec::new(),
        Listener::Reads,
        59_999,
    );
    assert!(run.delivered.is_empty());
    assert_eq!(calls, 1, "the first tick must not come free");
    assert_eq!(timer_wake(60).timeout_ms(), 60_000);
}

#[test]
fn reports_are_spaced_out_under_clean_flapping() {
    let a = all_from(&[peer(1)], Some(v4(192, 168, 1, 10)));
    let b = all_from(&[peer(1)], Some(v4(10, 40, 0, 7)));
    // Alternates every sample: each poll sees a settled but different picture.
    let mut calls: usize = 0;
    let sampler = move || {
        calls += 1;
        if calls % 2 == 1 {
            a.clone()
        } else {
            b.clone()
        }
    };

    // Poll far faster than the pacing floor, so only the floor can space these.
    let run = run(script::cfg(1, 0), sampler, timer_wake(1), Vec::new(), Listener::Reads, QUIET_WINDOW);

    let (started, first) = &run.delivered[0];
    let (at, second) = &run.delivered[1];
    assert_eq!(first.generation, 1);
    assert_eq!(second.generation, 2);
    assert!(
        at - started >= MIN_CHANGE_INTERVAL_MS as u128,
        "consecutive reports must be at least {:?} ms apart, got {:?}",
        MIN_CHANGE_INTERVAL_MS,
        at - started
    );
}

#[test]
fn a_script_holds_on_its_last_sample() {
    let a = all_from(&[peer(1)], None);
    let b = all_from(&[peer(2)], None);
    let mut sampler = scripted(vec![a.clone(), b.clone()]);
    assert_eq!(sampler.calls(), 0);
    assert_eq!(sampler.sample(), a);
    assert_eq!(sampler.sample(), b);
    assert_eq!(sampler.sample(), b);
    assert_eq!(sampler.calls(), 3);
}

#[test]
fn settings_are_what_they_say() {
    assert_eq!(
        script::cfg(3, 250),
        NetmonConfig { enabled: true, poll_interval_secs: 3, debounce_ms: 250 }
    );
}
