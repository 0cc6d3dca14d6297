use spacebot::agent::status::{CompletedItemType, StatusBlock, MAX_COMPLETED_ITEMS};
use spacebot::clock::Timestamp;
use spacebot::events::{ProcessEvent, ProcessId};

const NOON: Timestamp = Timestamp { seconds: 43200, nanos: 0 };

fn worker_complete(worker_id: u128, result: &str, notify: bool) -> ProcessEvent {
    ProcessEvent::WorkerComplete {
        agent_id: "agent".to_string(),
        worker_id,
        channel_id: None,
        result: result.to_string(),
        notify,
        success: true,
    }
}

fn branch_result(branch_id: u128, conclusion: &str) -> ProcessEvent {
    ProcessEvent::BranchResult {
        agent_id: "agent".to_string(),
        branch_id,
        channel_id: "channel".to_string(),
        conclusion: conclusion.to_string(),
    }
}

#[test]
fn blocks_are_rendered() {
    let mut block = StatusBlock::new();
    assert_eq!(block.render(), "");
    block.add_worker_at(1, "dig".to_string(), false, NOON);
    block.add_branch_at(2, "think".to_string(), Timestamp { seconds: NOON.seconds + 61, nanos: 0 });
    block.update_at(
        &ProcessEvent::WorkerStatus {
            agent_id: "agent".to_string(),
            worker_id: 1,
            channel_id: None,
            status: "digging".to_string(),
        },
        NOON,
    );
    block.update_at(
        &ProcessEvent::ToolCompleted {
            agent_id: "agent".to_string(),
            process_id: ProcessId::Worker(1),
            channel_id: None,
            tool_name: "shovel".to_string(),
            result: "hole".to_string(),
        },
        NOON,
    );
    assert_eq!(
        block.render(),
        "## Active Workers\n- [00000000-0000-0000-0000-000000000001] dig (12:00, 1 tool calls): digging\n\n## Active Branches\n- [00000000-0000-0000-0000-000000000002] think (started 12:01:01)\n\n"
    );
    let mut leap = StatusBlock::new();
    leap.add_branch_at(2, "wait".to_string(), Timestamp { seconds: 59, nanos: 1_500_000_000 });
    assert_eq!(
        leap.render(),
        "## Active Branches\n- [00000000-0000-0000-0000-000000000002] wait (started 00:00:60)\n\n"
    );
    block.update_at(&worker_complete(1, "done", true), NOON);
    block.update_at(&branch_result(2, "thought"), NOON);
    assert_eq!(
        block.render(),
        "## Recently Completed\n- [branch] think: thought\n- [worker] dig: done\n\n"
    );
    assert_eq!(block.completed_items[0].item_type, CompletedItemType::Worker);
}

#[test]
fn long_results_are_cut_at_a_character() {
    let mut block = StatusBlock::default();
    block.add_branch_at(2, "think".to_string(), NOON);
    let long = format!("{}é{}", "a".repeat(499), "b".repeat(10));
    block.update_at(&branch_result(2, &long), NOON);
    assert_eq!(
        block.render(),
        format!("## Recently Completed\n- [branch] think: {}...\n\n", "a".repeat(499))
    );
}

#[test]
fn finished_work_leaves_the_active_lists() {
    let mut block = StatusBlock::new();
    block.add_worker(1, "dig".to_string(), true);
    assert!(block.is_worker_active(1));
    block.update(&worker_complete(1, "done", false));
    assert!(!block.is_worker_active(1));
    assert!(block.completed_items.is_empty());
    assert!(!block.remove_worker(1));
    block.add_worker(3, "x".to_string(), false);
    assert!(block.remove_worker(3));

    block.add_branch(2, "think".to_string());
    assert_eq!(block.active_branch_count(), 1);
    block.update(&branch_result(2, "thought"));
    assert_eq!(block.active_branch_count(), 0);
    assert_eq!(block.completed_items.len(), 1);
}

#[test]
fn finished_branches_are_capped_and_five_are_shown() {
    let mut block = StatusBlock::new();
    for id in 0..15 {
        block.add_branch_at(id, format!("b{id}"), NOON);
        block.update_at(&branch_result(id, "ok"), NOON);
    }
    assert_eq!(block.completed_items.len(), MAX_COMPLETED_ITEMS);
    assert_eq!(
        block.render(),
        "## Recently Completed\n- [branch] b14: ok\n- [branch] b13: ok\n- [branch] b12: ok\n- [branch] b11: ok\n- [branch] b10: ok\n\n"
    );
}
