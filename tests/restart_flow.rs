use lyrebird::queue::{QueueItem, Queueable};
use lyrebird::restart::{
    after_failed_join, authorize_restart, recovery_plan, replay_plan, restart, ReplayStep, RestartError,
};
use lyrebird::session::{JoinOutcome, SessionError, SessionRegistry};
use lyrebird::snapshot::{decode, encode, CallData, FormatError};

fn src(arg: &str) -> Queueable {
    Queueable::Ytdl { arg: arg.to_string() }
}

fn registry_with_two_sessions() -> SessionRegistry {
    let mut reg = SessionRegistry::new();
    assert_eq!(reg.try_join(10, Some(100), true), Ok(JoinOutcome::Created { channel: 100 }));
    assert_eq!(reg.try_join(20, Some(200), true), Ok(JoinOutcome::Created { channel: 200 }));
    let i = reg.find(10).unwrap();
    reg.queue_at(i).enqueue(QueueItem::new(src("a1")));
    reg.queue_at(i).enqueue(QueueItem::new(src("a2")));
    let j = reg.find(20).unwrap();
    reg.queue_at(j).enqueue(QueueItem::new(src("b1")));
    reg.queue_at(j).enqueue(QueueItem::new(src("b2")));
    reg
}

#[test]
fn drain_encode_decode_replay_scenario() {
    let mut reg = registry_with_two_sessions();
    let records = reg.drain_all();
    assert_eq!(reg.len(), 0);
    let text = encode(&records);
    let back = decode(&text).unwrap();
    assert_eq!(back, records);
    let plan = replay_plan(&back);
    let joins: Vec<&ReplayStep> = plan.iter().filter(|s| matches!(s, ReplayStep::Join { .. })).collect();
    assert_eq!(joins.len(), 2);
    assert_eq!(plan.len(), 6);
    assert_eq!(
        plan,
        vec![
            ReplayStep::Join { room: 10, channel: 100 },
            ReplayStep::Enqueue { room: 10, source: src("a1") },
            ReplayStep::Enqueue { room: 10, source: src("a2") },
            ReplayStep::Join { room: 20, channel: 200 },
            ReplayStep::Enqueue { room: 20, source: src("b1") },
            ReplayStep::Enqueue { room: 20, source: src("b2") },
        ]
    );
    // A failed enqueue is skipped; the walk still ends after every step.
    let mut i = 0;
    let mut enqueued = 0;
    while i < plan.len() {
        if let ReplayStep::Enqueue { .. } = plan[i] {
            enqueued += 1;
        }
        i += 1;
    }
    assert_eq!(enqueued, 4);
}

#[test]
fn failed_join_skips_its_enqueues() {
    let mut reg = registry_with_two_sessions();
    let plan = replay_plan(&reg.drain_all());
    assert_eq!(after_failed_join(&plan, 0), 3);
    assert_eq!(after_failed_join(&plan, 3), 6);
}

#[test]
fn drain_drops_errored_items() {
    let mut reg = SessionRegistry::new();
    reg.autojoin(5, 6);
    let i = reg.find(5).unwrap();
    reg.queue_at(i).enqueue(QueueItem::new(src("ok")));
    reg.queue_at(i).enqueue(QueueItem::new(src("bad")));
    reg.queue_at(i).mark_errored(1);
    let records = reg.drain_all();
    assert_eq!(records, vec![CallData { guild: 5, channel: 6, queue: vec![src("ok")] }]);
}

#[test]
fn encode_exact_text() {
    let records = vec![CallData { guild: 1, channel: 22, queue: vec![src("a\"b\\c\nd")] }];
    let text = encode(&records);
    assert_eq!(
        text,
        "[{\"guild\":1,\"channel\":22,\"queue\":[{\"Ytdl\":{\"arg\":\"a\\\"b\\\\c\\nd\"}}]}]"
    );
    let value: serde_json::Value = serde_json::from_str(&text).unwrap();
    assert_eq!(value[0]["guild"].as_u64(), Some(1));
    assert_eq!(value[0]["queue"][0]["Ytdl"]["arg"].as_str(), Some("a\"b\\c\nd"));
    assert_eq!(encode(&Vec::new()), "[]");
}

#[test]
fn round_trip_edge_cases() {
    let cases = vec![
        vec![],
        vec![CallData { guild: u64::MAX, channel: 0, queue: vec![] }],
        vec![
            CallData { guild: 7, channel: 8, queue: vec![src(""), src("ytsearch1:héllo \t\r"), src("x")] },
            CallData { guild: 9, channel: 10, queue: vec![] },
        ],
    ];
    for records in cases {
        assert_eq!(decode(&encode(&records)), Ok(records));
    }
}

#[test]
fn decode_rejects_corrupt_text() {
    for bad in [
        "",
        "[",
        "]",
        "[{}]",
        "[{\"guild\":1,\"channel\":2,\"queue\":[]}",
        "[{\"guild\":1,\"channel\":2,\"queue\":[]}] ",
        "[{\"guild\":18446744073709551616,\"channel\":2,\"queue\":[]}]",
        "[{\"guild\":1,\"channel\":2,\"queue\":[{\"Ytdl\":{\"arg\":\"a\\q\"}}]}]",
        "[{\"guild\":1,\"channel\":2,\"queue\":[{\"Ytdl\":{\"arg\":\"abc",
        "[{\"guild\":,\"channel\":2,\"queue\":[]}]",
    ] {
        assert_eq!(decode(bad), Err(FormatError), "{bad}");
    }
}

#[test]
fn join_errors_and_leave() {
    let mut reg = SessionRegistry::new();
    assert_eq!(reg.try_join(1, None, false), Err(SessionError::NotInChannel));
    assert_eq!(reg.try_join(1, Some(2), false), Ok(JoinOutcome::Created { channel: 2 }));
    assert_eq!(reg.try_join(1, Some(3), true), Err(SessionError::AlreadyJoined));
    assert_eq!(reg.try_join(1, None, false), Ok(JoinOutcome::Existing));
    assert_eq!(reg.autojoin(1, 9), JoinOutcome::Existing);
    assert_eq!(reg.session(0).channel, 2);
    let s = reg.leave(1).unwrap();
    assert_eq!(s.room, 1);
    assert!(reg.leave(1).is_err());
    assert_eq!(reg.leave(1).err(), Some(SessionError::NotJoined));
    assert_eq!(reg.len(), 0);
}

#[test]
fn restart_authorization() {
    assert_eq!(authorize_restart(false, true), Err(RestartError::NotOwner));
    assert_eq!(authorize_restart(false, false), Err(RestartError::NotOwner));
    assert_eq!(authorize_restart(true, false), Err(RestartError::NotSupervised));
    assert_eq!(authorize_restart(true, true), Ok(()));
}

#[test]
fn enter_vc_paths() {
    let mut reg = SessionRegistry::new();
    assert_eq!(reg.enter_vc(3, Some(30), false), Err(SessionError::NotJoined));
    assert_eq!(reg.enter_vc(3, None, true), Err(SessionError::NotInChannel));
    assert_eq!(reg.enter_vc(3, Some(30), true), Ok(0));
    assert_eq!(reg.enter_vc(4, Some(40), true), Ok(1));
    assert_eq!(reg.enter_vc(3, None, false), Ok(0));
    assert_eq!(reg.session(1).channel, 40);
    assert_eq!(reg.len(), 2);
}

#[test]
fn restart_drains_only_when_allowed() {
    let mut reg = registry_with_two_sessions();
    assert_eq!(restart(&mut reg, false, true), Err(RestartError::NotOwner));
    assert_eq!(restart(&mut reg, true, false), Err(RestartError::NotSupervised));
    assert_eq!(reg.len(), 2);
    let text = restart(&mut reg, true, true).unwrap();
    assert_eq!(reg.len(), 0);
    let steps = recovery_plan(&text).unwrap();
    assert_eq!(steps.len(), 6);
    assert_eq!(steps[0], ReplayStep::Join { room: 10, channel: 100 });
    assert_eq!(steps[5], ReplayStep::Enqueue { room: 20, source: src("b2") });
    assert_eq!(recovery_plan("not a transfer file"), Err(FormatError));
}
