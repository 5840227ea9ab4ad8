use codex_logic::remote_compact::select_flagged;
use codex_logic::remote_compact::CompactAction;
use codex_logic::remote_compact::CompactEvent;
use codex_logic::remote_compact::CompactionFailure;
use codex_logic::remote_compact::CompactionOutcome;
use codex_logic::remote_compact::RemoteCompaction;
use codex_logic::remote_compact::COMPACTION_ERROR_MESSAGE;

#[derive(Debug, Clone, PartialEq)]
enum Item {
    Message(&'static str),
    Snapshot(u32),
}

fn is_ghost(item: &Item) -> bool {
    matches!(item, Item::Snapshot(_))
}

fn step(
    task: &mut RemoteCompaction<Item>,
    event: CompactEvent<Item, String>,
) -> CompactAction<Item, String> {
    assert!(task.is_expected(&event));
    task.step(event)
}

fn history() -> Vec<Item> {
    vec![
        Item::Message("a"),
        Item::Snapshot(1),
        Item::Message("b"),
        Item::Snapshot(2),
    ]
}

#[test]
fn successful_compaction_keeps_ghost_snapshots() {
    let mut task = RemoteCompaction::new(true);
    assert!(matches!(step(&mut task, CompactEvent::Begin), CompactAction::SendTurnStarted));
    assert!(matches!(step(&mut task, CompactEvent::Done), CompactAction::LoadHistory));
    let items = history();
    let flags = items.iter().map(is_ghost).collect::<Vec<_>>();
    assert!(matches!(
        step(&mut task, CompactEvent::HistoryLoaded(items, flags)),
        CompactAction::RequestCompaction
    ));
    let compacted = vec![Item::Message("summary")];
    assert!(matches!(
        step(
            &mut task,
            CompactEvent::CompactionFinished(CompactionOutcome::Compacted(compacted)),
        ),
        CompactAction::ReplaceHistory
    ));
    let expected = vec![Item::Message("summary"), Item::Snapshot(1), Item::Snapshot(2)];
    assert_eq!(task.replacement, expected);
    assert!(matches!(step(&mut task, CompactEvent::Done), CompactAction::RecomputeTokenUsage));
    match step(&mut task, CompactEvent::Done) {
        CompactAction::PersistCompacted(history) => assert_eq!(history, expected),
        _ => panic!("expected the rollout record"),
    }
    assert!(matches!(step(&mut task, CompactEvent::Done), CompactAction::SendContextCompacted));
    assert!(matches!(step(&mut task, CompactEvent::Done), CompactAction::Finish));
    assert!(!task.is_expected(&CompactEvent::<Item, String>::Done));
}

#[test]
fn inline_compaction_does_not_announce_a_turn() {
    let mut task = RemoteCompaction::new(false);
    assert!(matches!(step(&mut task, CompactEvent::Begin), CompactAction::LoadHistory));
}

#[test]
fn failures_are_reported_once_and_end_the_task() {
    let outcomes = vec![
        CompactionOutcome::Cancelled,
        CompactionOutcome::TimedOut,
        CompactionOutcome::Failed("boom".to_string()),
    ];
    for outcome in outcomes {
        let mut task = RemoteCompaction::new(false);
        step(&mut task, CompactEvent::Begin);
        step(&mut task, CompactEvent::HistoryLoaded(history(), vec![false, true, false, true]));
        let expected_failed = matches!(outcome, CompactionOutcome::Failed(_));
        let expected_timeout = matches!(outcome, CompactionOutcome::TimedOut);
        match step(&mut task, CompactEvent::CompactionFinished(outcome)) {
            CompactAction::SendError(CompactionFailure::Failed(e)) => {
                assert!(expected_failed);
                assert_eq!(e, "boom");
            }
            CompactAction::SendError(CompactionFailure::IdleTimeout) => assert!(expected_timeout),
            CompactAction::SendError(CompactionFailure::Aborted) => {
                assert!(!expected_failed && !expected_timeout)
            }
            _ => panic!("expected an error report"),
        }
        assert!(matches!(step(&mut task, CompactEvent::Done), CompactAction::Finish));
    }
    assert_eq!(COMPACTION_ERROR_MESSAGE, "Error running remote compact task");
}

#[test]
fn unexpected_events_are_recognised() {
    let task: RemoteCompaction<Item> = RemoteCompaction::new(true);
    assert!(!task.is_expected(&CompactEvent::<Item, String>::Done));
    assert!(task.is_expected(&CompactEvent::<Item, String>::Begin));
    let mut task: RemoteCompaction<Item> = RemoteCompaction::new(false);
    step(&mut task, CompactEvent::Begin);
    assert!(!task.is_expected(&CompactEvent::<Item, String>::HistoryLoaded(history(), vec![true])));
}

#[test]
fn flagged_items_keep_their_order() {
    assert_eq!(
        select_flagged(vec![1, 2, 3, 4, 5], &vec![true, false, true, true, false]),
        vec![1, 3, 4]
    );
    assert_eq!(select_flagged(Vec::<u8>::new(), &Vec::new()), Vec::<u8>::new());
}
