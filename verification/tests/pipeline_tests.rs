use syn_debugger::artifact::{ArtifactKind, ParseArtifact};
use syn_debugger::mode::GrammarEntryPoint;
use syn_debugger::pipeline::{PipelineController, PipelineEvent};
use syn_debugger::scheduler::SchedulerError;
use syn_debugger::service::ParseService;

#[test]
fn startup_state() {
    let controller = PipelineController::with_default_interval();
    assert_eq!(controller.current_text(), "");
    assert_eq!(controller.current_mode(), GrammarEntryPoint::TopLevelItem);
    assert_eq!(controller.current_artifact(), &ParseArtifact::empty());
    assert!(!controller.is_running());
    assert_eq!(controller.interval(), 400);
}

#[test]
fn controller_refuses_a_zero_interval() {
    assert_eq!(PipelineController::new(0).unwrap_err(), SchedulerError::ZeroInterval);
    let controller = PipelineController::new(250).unwrap();
    assert_eq!(controller.interval(), 250);
    assert_eq!(controller.current_artifact().kind(), ArtifactKind::Empty);
}

#[test]
fn controller_refuses_a_second_start() {
    let mut controller = PipelineController::with_default_interval();
    assert_eq!(controller.start(), Ok(()));
    assert_eq!(controller.start(), Err(SchedulerError::AlreadyRunning));
    assert!(controller.is_running());
    controller.stop();
    assert!(!controller.is_running());
    assert_eq!(controller.start(), Ok(()));
}

#[test]
fn trigger_is_idempotent() {
    let mut controller = PipelineController::with_default_interval();
    controller.edit_text(String::from("fn f() {}"));
    assert!(controller.on_trigger());
    let first = ParseArtifact::from_outcome(Ok(String::from(controller.current_artifact().text())));
    assert!(first.is_success());
    assert!(!controller.on_trigger());
    assert_eq!(controller.current_artifact(), &first);
    assert!(!controller.on_trigger());
    assert_eq!(controller.current_artifact(), &first);
}

#[test]
fn commit_is_parsed_at_once_in_any_scheduler_state() {
    let expected = ParseService::parse("struct S;", GrammarEntryPoint::TopLevelItem);

    let mut idle = PipelineController::with_default_interval();
    idle.edit_text(String::from("fn stale() {}"));
    assert!(idle.text_committed(String::from("struct S;")));
    assert_eq!(idle.current_artifact(), &expected);
    assert_eq!(idle.current_text(), "struct S;");
    assert!(!idle.is_running());

    let mut running = PipelineController::with_default_interval();
    running.start().unwrap();
    running.edit_text(String::from("fn stale() {}"));
    assert!(running.timer_tick());
    assert!(running.text_committed(String::from("struct S;")));
    assert_eq!(running.current_artifact(), &expected);
    assert!(running.is_running());
}

#[test]
fn sentinel_stays_across_repeated_triggers() {
    let mut controller = PipelineController::with_default_interval();
    controller.start().unwrap();
    assert!(controller.on_mode_change(GrammarEntryPoint::Unrecognized));
    controller.edit_text(String::from("anything"));
    assert!(controller.timer_tick());
    assert_eq!(controller.current_artifact(), &ParseArtifact::sentinel());
    controller.edit_text(String::from("fn f() {}"));
    for _ in 0..5 {
        assert!(controller.timer_tick());
        assert_eq!(controller.current_artifact().text(), "it should not be selected");
        assert_eq!(controller.current_artifact().kind(), ArtifactKind::Sentinel);
    }
}

#[test]
fn only_the_last_edit_between_two_ticks_is_parsed() {
    let mut controller = PipelineController::with_default_interval();
    controller.start().unwrap();
    controller.edit_text(String::from("fn before() {}"));
    assert!(controller.timer_tick());
    let before = ParseService::parse("fn before() {}", GrammarEntryPoint::TopLevelItem);
    assert_eq!(controller.current_artifact(), &before);

    controller.edit_text(String::from("fn a() {}"));
    assert_eq!(controller.current_artifact(), &before);
    controller.edit_text(String::from("fn b( {}"));
    assert_eq!(controller.current_artifact(), &before);
    controller.edit_text(String::from("fn c() {}"));
    assert_eq!(controller.current_artifact(), &before);

    assert!(controller.timer_tick());
    let last = ParseService::parse("fn c() {}", GrammarEntryPoint::TopLevelItem);
    assert_eq!(controller.current_artifact(), &last);
    assert!(controller.current_artifact().text().contains("sym: c,"));
    assert!(!controller.current_artifact().text().contains("sym: a,"));
    assert!(controller.current_artifact().is_success());
}

#[test]
fn mode_change_waits_for_the_next_trigger() {
    let mut controller = PipelineController::with_default_interval();
    controller.start().unwrap();
    controller.text_committed(String::from("1 + "));
    assert!(controller.current_artifact().is_failure());
    let failure = ParseService::parse("1 + ", GrammarEntryPoint::TopLevelItem);

    assert!(controller.on_mode_change(GrammarEntryPoint::TokenStreamOnly));
    assert_eq!(controller.current_mode(), GrammarEntryPoint::TokenStreamOnly);
    assert_eq!(controller.current_artifact(), &failure);
    assert!(!controller.on_mode_change(GrammarEntryPoint::TokenStreamOnly));

    assert!(controller.timer_tick());
    assert!(controller.current_artifact().is_success());
    assert_eq!(
        controller.current_artifact(),
        &ParseService::parse("1 + ", GrammarEntryPoint::TokenStreamOnly)
    );
}

#[test]
fn no_tick_is_a_trigger_before_start_or_after_stop() {
    let mut controller = PipelineController::with_default_interval();
    controller.edit_text(String::from("fn f() {}"));
    assert!(!controller.timer_tick());
    assert_eq!(controller.current_artifact(), &ParseArtifact::empty());

    controller.start().unwrap();
    assert!(controller.timer_tick());
    let shown = ParseService::parse("fn f() {}", GrammarEntryPoint::TopLevelItem);
    assert_eq!(controller.current_artifact(), &shown);

    controller.stop();
    controller.edit_text(String::from("struct Later;"));
    for _ in 0..3 {
        assert!(!controller.timer_tick());
        assert_eq!(controller.current_artifact(), &shown);
    }
}

#[test]
fn failure_is_displayed_and_the_pipeline_stays_live() {
    let mut controller = PipelineController::with_default_interval();
    controller.start().unwrap();
    controller.edit_text(String::from("fn f( {}"));
    assert!(controller.timer_tick());
    assert!(controller.current_artifact().is_failure());
    assert_eq!(
        controller.current_artifact().text(),
        "lexical error: cannot parse string into token stream\n  at line 1, column 4"
    );
    controller.edit_text(String::from("fn f() {}"));
    assert!(controller.timer_tick());
    assert!(controller.current_artifact().is_success());
}

#[test]
fn trigger_reports_whether_the_artifact_changed() {
    let mut controller = PipelineController::with_default_interval();
    controller.edit_text(String::from("fn f() {}"));
    assert!(controller.on_trigger());
    controller.edit_text(String::from("fn f() {}"));
    assert!(!controller.on_trigger());
    controller.edit_text(String::from("fn g() {}"));
    assert!(controller.on_trigger());
    assert!(!controller.text_committed(String::from("fn g() {}")));
}

#[test]
fn events_are_handled_in_their_order() {
    let mut controller = PipelineController::with_default_interval();
    controller.start().unwrap();
    assert!(!controller.handle(PipelineEvent::TextEdited(String::from("fn f() {}"))));
    assert_eq!(controller.current_text(), "fn f() {}");
    assert_eq!(controller.current_artifact(), &ParseArtifact::empty());

    assert!(controller.handle(PipelineEvent::TimerTick));
    let item = ParseService::parse("fn f() {}", GrammarEntryPoint::TopLevelItem);
    assert_eq!(controller.current_artifact(), &item);
    assert!(!controller.handle(PipelineEvent::TimerTick));

    assert!(!controller.handle(PipelineEvent::ModeSelected(GrammarEntryPoint::TokenStreamOnly)));
    assert_eq!(controller.current_mode(), GrammarEntryPoint::TokenStreamOnly);
    assert_eq!(controller.current_artifact(), &item);

    assert!(controller.handle(PipelineEvent::TextCommitted(String::from("1 + "))));
    assert_eq!(
        controller.current_artifact(),
        &ParseService::parse("1 + ", GrammarEntryPoint::TokenStreamOnly)
    );

    controller.stop();
    assert!(!controller.handle(PipelineEvent::TextEdited(String::from("struct S;"))));
    assert!(!controller.handle(PipelineEvent::TimerTick));
    assert!(controller.current_artifact().text().starts_with("TokenStream ["));
}

#[test]
fn tick_without_a_running_scheduler_handles_to_nothing() {
    let mut controller = PipelineController::new(100).unwrap();
    assert!(!controller.handle(PipelineEvent::TextEdited(String::from("fn f() {}"))));
    assert!(!controller.handle(PipelineEvent::TimerTick));
    assert_eq!(controller.current_artifact(), &ParseArtifact::empty());
    assert!(controller.handle(PipelineEvent::TextCommitted(String::from("fn f() {}"))));
    assert!(controller.current_artifact().is_success());
}
