use doom_launch::cmd::{CommandLine, Line};
use doom_launch::error::Error;
use doom_launch::job::{jobs_from_resolved, make_job, Job};
use doom_launch::scheduler::{
    interrupt_response, render_command, Action, Event, InterruptResponse, Phase, Scheduler,
};

fn job(stem: &str) -> Job {
    make_job(&format!("/demos/{}.lmp", stem), "/videos").unwrap()
}

fn base() -> CommandLine {
    let mut c = CommandLine::new();
    c.push_line(Line::from_words(&["/usr/bin/prboom", "-iwad"], 0));
    c
}

fn launched_demo(a: &Action) -> Option<String> {
    match a {
        Action::Launch(c) | Action::Confirm(c, _) => {
            let words = c.iter_words();
            let i = words.iter().position(|w| w.trim() == "-timedemo")?;
            Some(words[i + 1].trim().to_string())
        }
        _ => None,
    }
}

#[test]
fn make_job_names_video_after_demo() {
    let j = make_job("/demos/run1.lmp", "/videos").unwrap();
    assert_eq!(j.name, "run1");
    assert_eq!(j.source, "/demos/run1.lmp");
    assert_eq!(j.destination, "/videos/run1.mp4");
    let j = make_job("e1m1", "out/").unwrap();
    assert_eq!(j.destination, "out/e1m1.mp4");
    let j = make_job("/d/a.b.lmp", "").unwrap();
    assert_eq!(j.name, "a.b");
    assert_eq!(j.destination, "a.b.mp4");
}

#[test]
fn make_job_without_base_name_fails() {
    assert_eq!(make_job("/", "/videos"), Err(Error::NoBaseName("/".to_string())));
    assert_eq!(make_job("", "/videos"), Err(Error::NoBaseName(String::new())));
}

#[test]
fn render_command_appends_flags() {
    let c = render_command(&base(), &job("run1"));
    let words = c.iter_words();
    assert_eq!(
        words,
        vec![
            "/usr/bin/prboom",
            "-iwad",
            "    -timedemo",
            "        /demos/run1.lmp",
            "    -viddump",
            "        /videos/run1.mp4",
        ]
    );
    assert_eq!(c.iter_lines().len(), 5);
}

#[test]
fn three_jobs_run_in_order_without_interrupts() {
    let mut s = Scheduler::new(base(), vec![job("a"), job("b"), job("c")]);
    let mut launched = Vec::new();
    let a = s.step(Event::Start);
    assert!(matches!(a, Action::Confirm(_, true)));
    assert_eq!(s.phase(), Phase::AwaitingFirstConfirmation);
    assert!(!s.cancellable());
    let mut action = s.step(Event::Confirmed);
    loop {
        match action {
            Action::Launch(_) => {
                launched.push(launched_demo(&action).unwrap());
                assert_eq!(s.phase(), Phase::Running);
                assert!(!s.cancellable());
                action = s.step(Event::ProcessExited);
            }
            Action::Sleep => {
                assert!(s.cancellable());
                action = s.step(Event::CooldownElapsed(false));
            }
            Action::Drain => action = s.step(Event::Handoff(Vec::new())),
            Action::Finish => break,
            _ => panic!("unexpected action"),
        }
    }
    assert_eq!(launched, vec!["/demos/a.lmp", "/demos/b.lmp", "/demos/c.lmp"]);
    assert_eq!(s.phase(), Phase::Drained);
}

#[test]
fn interrupt_in_cooldown_appends_jobs() {
    let mut s = Scheduler::new(base(), vec![job("a"), job("b"), job("c")]);
    s.step(Event::Start);
    s.step(Event::Confirmed);
    assert!(matches!(s.step(Event::ProcessExited), Action::Sleep));
    assert_eq!(s.on_interrupt(), InterruptResponse::CollectExtraDemos);
    let extra = jobs_from_resolved(
        vec![Ok("/demos/x.lmp".to_string()), Ok("/demos/y.lmp".to_string())],
        "/videos",
    );
    assert!(matches!(s.step(Event::CooldownElapsed(true)), Action::AwaitResume));
    assert_eq!(s.phase(), Phase::AwaitingExtraDemos);
    assert!(matches!(s.step(Event::Resumed), Action::Drain));
    assert_eq!(s.queue().len(), 2);
    let a = s.step(Event::Handoff(extra));
    assert_eq!(launched_demo(&a).unwrap(), "/demos/b.lmp");
    let waiting: Vec<&str> = s.queue().iter().map(|j| j.name.as_str()).collect();
    assert_eq!(waiting, vec!["c", "x", "y"]);
    assert_eq!(s.queue().len() + 1, 4);
    assert_eq!(s.current().unwrap().name, "b");
}

#[test]
fn interrupt_while_awaiting_confirmation_terminates() {
    let mut s = Scheduler::new(base(), vec![job("a"), job("b")]);
    s.step(Event::Start);
    assert_eq!(s.phase(), Phase::AwaitingFirstConfirmation);
    assert_eq!(s.on_interrupt(), InterruptResponse::Terminate);
    s.step(Event::Confirmed);
    assert_eq!(s.on_interrupt(), InterruptResponse::Terminate);
    assert_eq!(interrupt_response(true), InterruptResponse::CollectExtraDemos);
    assert_eq!(interrupt_response(false), InterruptResponse::Terminate);
}

#[test]
fn handoff_error_fails_batch() {
    let mut s = Scheduler::new(base(), vec![job("a"), job("b")]);
    s.step(Event::Start);
    s.step(Event::Confirmed);
    s.step(Event::ProcessExited);
    s.step(Event::CooldownElapsed(false));
    let a = s.step(Event::Handoff(vec![Ok(job("x")), Err(Error::HandoffFailure), Err(Error::NotFound("q".to_string()))]));
    assert!(matches!(a, Action::Fail(Error::HandoffFailure)));
    assert_eq!(s.phase(), Phase::Drained);
}

#[test]
fn empty_queue_finishes_at_once() {
    let mut s = Scheduler::new(base(), Vec::new());
    assert!(matches!(s.step(Event::Start), Action::Finish));
    assert_eq!(s.phase(), Phase::Drained);
}

#[test]
fn single_job_confirms_without_batch() {
    let mut s = Scheduler::new(base(), vec![job("a")]);
    assert!(matches!(s.step(Event::Start), Action::Confirm(_, false)));
    s.step(Event::Confirmed);
    assert!(matches!(s.step(Event::ProcessExited), Action::Finish));
}

#[test]
fn events_out_of_phase_are_ignored() {
    let mut s = Scheduler::new(base(), vec![job("a"), job("b")]);
    assert!(matches!(s.step(Event::Confirmed), Action::Ignore));
    assert!(matches!(s.step(Event::Resumed), Action::Ignore));
    assert_eq!(s.phase(), Phase::Idle);
    assert_eq!(s.queue().len(), 2);
}

#[test]
fn resolved_failures_become_one_error() {
    let r = jobs_from_resolved(
        vec![Ok("/d/a.lmp".to_string()), Err(Error::NotFound("zz".to_string())), Ok("/".to_string())],
        "/v",
    );
    assert_eq!(r, vec![Err(Error::NotFound("zz".to_string()))]);
    let r = jobs_from_resolved(vec![Ok("/d/a.lmp".to_string()), Ok("/".to_string())], "/v");
    assert_eq!(r, vec![Err(Error::NoBaseName("/".to_string()))]);
    let r = jobs_from_resolved(vec![Ok("/d/a.lmp".to_string())], "/v");
    assert_eq!(r, vec![Ok(make_job("/d/a.lmp", "/v").unwrap())]);
}
