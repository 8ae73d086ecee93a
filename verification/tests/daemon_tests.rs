use hyprsechy::daemon::{
    connect_step, prompt_wait_step, restore_script_path, should_offer_restore, ConnectStep, PromptWait,
    CONNECT_RETRIES, PROMPT_WAIT_LIMIT,
};

#[test]
fn connecting_retries_then_gives_up() {
    assert_eq!(CONNECT_RETRIES, 30);
    assert_eq!(connect_step(30, true), ConnectStep::Run);
    assert_eq!(connect_step(30, false), ConnectStep::Retry(29));
    assert_eq!(connect_step(1, false), ConnectStep::Retry(0));
    assert_eq!(connect_step(0, false), ConnectStep::GiveUp);
    let mut left = CONNECT_RETRIES;
    let mut attempts = 0;
    loop {
        attempts += 1;
        match connect_step(left, false) {
            ConnectStep::Retry(n) => left = n,
            ConnectStep::GiveUp => break,
            ConnectStep::Run => unreachable!(),
        }
    }
    assert_eq!(attempts, 31);
}

#[test]
fn restore_offered_only_when_enabled_and_saved() {
    assert!(should_offer_restore(true, true));
    assert!(!should_offer_restore(true, false));
    assert!(!should_offer_restore(false, true));
}

#[test]
fn waiting_for_the_prompt() {
    assert_eq!(PROMPT_WAIT_LIMIT, 300);
    assert_eq!(prompt_wait_step(0, Some(false)), PromptWait::Closed);
    assert_eq!(prompt_wait_step(0, Some(true)), PromptWait::Waiting(1));
    assert_eq!(prompt_wait_step(5, None), PromptWait::Waiting(6));
    assert_eq!(prompt_wait_step(299, Some(true)), PromptWait::Waiting(300));
    assert_eq!(prompt_wait_step(300, Some(true)), PromptWait::TimedOut);
    assert_eq!(prompt_wait_step(u32::MAX, None), PromptWait::TimedOut);
}

#[test]
fn launch_script_location() {
    assert_eq!(restore_script_path(Some("/home/u")), "/home/u/.local/share/hyprsechy/bin/launch-restore-tui.sh");
    assert_eq!(restore_script_path(None), "/tmp/launch-restore-tui.sh");
}
