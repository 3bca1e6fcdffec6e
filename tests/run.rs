use cache_sweep::answer::{is_affirmative, is_yes};
use cache_sweep::failure_log::{log_line, log_lines};
use cache_sweep::session::{Action, Event, Phase, Session};

#[test]
fn empty_tree_ends_without_prompt() {
    let (mut s, a) = Session::start(0);
    assert_eq!(a, Action::ReportEmpty);
    assert_eq!(s.phase(), Phase::Done);
    assert_eq!(s.step(Event::Answer(true)), Action::Nothing);
    assert_eq!(s.step(Event::PassFinished(vec![0])), Action::Nothing);
}

#[test]
fn declining_first_prompt_cancels() {
    let (mut s, a) = Session::start(5);
    assert_eq!(a, Action::AskDelete);
    assert_eq!(s.step(Event::Answer(false)), Action::Cancel);
    assert_eq!(s.phase(), Phase::Done);
    assert_eq!(s.step(Event::Answer(true)), Action::Nothing);
    assert_eq!(s.step(Event::PassFinished(vec![1])), Action::Nothing);
    assert_eq!(s.step(Event::RetryFinished(vec![])), Action::Nothing);
}

#[test]
fn clean_pass_finishes() {
    let (mut s, _) = Session::start(2);
    assert_eq!(s.step(Event::Answer(true)), Action::RunPass);
    assert_eq!(s.step(Event::PassFinished(vec![])), Action::Finish);
    assert_eq!(s.phase(), Phase::Done);
}

#[test]
fn failures_declined_retry_logs_all() {
    let (mut s, _) = Session::start(3);
    assert_eq!(s.step(Event::Answer(true)), Action::RunPass);
    assert_eq!(s.step(Event::PassFinished(vec![0, 1, 2])), Action::AskRetry);
    assert_eq!(s.step(Event::Answer(false)), Action::WriteLog);
    assert_eq!(s.failures(), vec![0, 1, 2]);
    let paths: Vec<String> = vec!["C:/a".to_string(), "C:/b".to_string(), "C:/c".to_string()];
    let lines = log_lines(&paths);
    assert_eq!(lines.len(), 3);
}

#[test]
fn retry_keeps_first_failures_for_log() {
    let (mut s, _) = Session::start(4);
    s.step(Event::Answer(true));
    assert_eq!(s.step(Event::PassFinished(vec![1, 3])), Action::AskRetry);
    assert_eq!(s.step(Event::Answer(true)), Action::RunRetry);
    assert_eq!(s.phase(), Phase::Retrying);
    assert_eq!(s.step(Event::RetryFinished(vec![])), Action::WriteLog);
    assert_eq!(s.failures(), vec![1, 3]);
}

#[test]
fn retries_never_chain() {
    let (mut s, _) = Session::start(1);
    s.step(Event::Answer(true));
    s.step(Event::PassFinished(vec![0]));
    assert_eq!(s.step(Event::Answer(true)), Action::RunRetry);
    assert_eq!(s.step(Event::RetryFinished(vec![0])), Action::WriteLog);
    assert_eq!(s.step(Event::Answer(true)), Action::Nothing);
    assert_eq!(s.step(Event::PassFinished(vec![0])), Action::Nothing);
}

#[test]
fn events_out_of_turn_do_nothing() {
    let (mut s, _) = Session::start(1);
    assert_eq!(s.step(Event::PassFinished(vec![0])), Action::Nothing);
    assert_eq!(s.phase(), Phase::Confirming);
    assert!(s.failures().is_empty());
}

#[test]
fn affirmative_answers() {
    assert!(is_affirmative("y"));
    assert!(is_affirmative("Y\n"));
    assert!(is_affirmative("  y \r\n"));
}

#[test]
fn other_answers_refuse() {
    assert!(!is_affirmative("n"));
    assert!(!is_affirmative(""));
    assert!(!is_affirmative("yes"));
    assert!(!is_affirmative("y y"));
}

#[test]
fn normalized_answer() {
    assert!(is_yes(&"y".to_string()));
    assert!(!is_yes(&"Y".to_string()));
    assert!(!is_yes(&" y".to_string()));
}

#[test]
fn log_line_has_label_and_path() {
    assert_eq!(log_line("C:/cache/x.bin"), "삭제 실패: C:/cache/x.bin");
    let lines = log_lines(&vec!["/a".to_string(), "/b c".to_string()]);
    assert_eq!(lines, vec!["삭제 실패: /a".to_string(), "삭제 실패: /b c".to_string()]);
}
