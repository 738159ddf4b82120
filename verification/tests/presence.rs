use lyrics_parser::PresenceState;

#[test]
fn fresh_agent_plans_nothing() {
    let agent = PresenceState::new();
    let plan = agent.activity_plan();
    assert_eq!(plan.state, None);
    assert_eq!(plan.details, None);
    assert_eq!(plan.timestamps, None);
    assert_eq!(plan.large_image, None);
    assert_eq!(plan.large_text, None);
    assert_eq!(plan.small_image, None);
    assert_eq!(plan.small_text, None);
}

#[test]
fn set_fields_appear_in_plan() {
    let mut agent = PresenceState::new();
    agent.set_activity_state("listening");
    agent.set_activity_details("Song Title");
    agent.set_activity_assets("art", "Album", "", "");
    let plan = agent.activity_plan();
    assert_eq!(plan.state, Some("listening".to_string()));
    assert_eq!(plan.details, Some("Song Title".to_string()));
    assert_eq!(plan.large_image, Some("art".to_string()));
    assert_eq!(plan.large_text, Some("Album".to_string()));
    assert_eq!(plan.small_image, None);
    assert_eq!(plan.small_text, None);
}

#[test]
fn timestamps_need_both_ends() {
    let mut agent = PresenceState::new();
    agent.set_activity_timestamps(3, 5);
    assert_eq!(agent.activity_plan().timestamps, Some((3, 5)));
    agent.set_activity_timestamps(0, 5);
    assert_eq!(agent.activity_plan().timestamps, None);
    agent.set_activity_timestamps(3, 0);
    assert_eq!(agent.activity_plan().timestamps, None);
}

#[test]
fn clear_resets_everything() {
    let mut agent = PresenceState::new();
    agent.set_activity_state("s");
    agent.set_activity_details("d");
    agent.set_activity_timestamps(1, 2);
    agent.set_activity_assets("a", "b", "c", "d");
    agent.clear_activity();
    let plan = agent.activity_plan();
    assert_eq!(plan.state, None);
    assert_eq!(plan.details, None);
    assert_eq!(plan.timestamps, None);
    assert_eq!(plan.large_image, None);
    assert_eq!(plan.large_text, None);
    assert_eq!(plan.small_image, None);
    assert_eq!(plan.small_text, None);
}
