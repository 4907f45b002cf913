use lucida::acquire::{AcquireError, Acquisition, Action, Event};
use lucida::model::{Country, StatusResponse, StreamResponse};
use lucida::poll::{classify_status, JobStatus, StatusPoller};
use lucida::service::LucidaService;

fn countries(codes: &[&str]) -> Vec<Country> {
    codes
        .iter()
        .map(|c| Country { code: c.to_string(), label: c.to_string() })
        .collect()
}

fn accepted(id: &str) -> StreamResponse {
    StreamResponse { success: true, error: None, handoff: Some(id.to_string()), name: None }
}

fn rejected() -> StreamResponse {
    StreamResponse { success: false, error: Some("no".to_string()), handoff: None, name: None }
}

fn status(s: &str, m: &str) -> StatusResponse {
    StatusResponse { success: true, status: s.to_string(), message: m.to_string() }
}

/// Runs an acquisition against scripted answers; returns the stream request
/// countries, the emitted messages, and the final action.
fn drive(
    url: &str,
    list: &[&str],
    mut stream: impl FnMut(&str, usize) -> StreamResponse,
    mut poll: impl FnMut(usize) -> (StatusResponse, i64),
) -> (Vec<String>, Vec<String>, Action) {
    let (mut acq, mut step) = Acquisition::begin(url, false);
    let mut asked = Vec::new();
    let mut messages = Vec::new();
    let mut polls = 0usize;
    loop {
        messages.extend(step.messages.clone());
        if matches!(step.action, Action::Download { .. } | Action::Fail { .. }) {
            return (asked, messages, step.action);
        }
        let event = match &step.action {
            Action::FetchCountries { .. } => Event::Countries { countries: countries(list) },
            Action::FetchStream { request } => {
                asked.push(request.account.id.clone());
                Event::Stream { response: stream(&request.account.id, asked.len()) }
            }
            Action::FetchStatus { .. } => {
                let (response, now_ms) = poll(polls);
                polls += 1;
                Event::Status { response, now_ms }
            }
            Action::Download { .. } | Action::Fail { .. } => panic!("the acquisition is over"),
        };
        assert!(acq.accepts(&event));
        step = acq.advance(event);
    }
}

#[test]
fn unknown_service_fails_at_once() {
    let (acq, step) = Acquisition::begin("https://example.com/x", false);
    assert!(matches!(step.action, Action::Fail { error: AcquireError::UnknownService }));
    assert!(step.messages.is_empty());
    assert!(!acq.accepts(&Event::Countries { countries: vec![] }));
}

#[test]
fn begin_asks_for_countries_of_the_service() {
    let (_, step) = Acquisition::begin("https://tidal.com/track/1", true);
    assert!(matches!(
        step.action,
        Action::FetchCountries { service: LucidaService::Tidal }
    ));
}

#[test]
fn empty_country_list_exhausts_immediately() {
    let (asked, _, action) =
        drive("https://tidal.com/t/1", &[], |_, _| accepted("j"), |_| (status("completed", "m"), 0));
    assert!(asked.is_empty());
    assert!(matches!(action, Action::Fail { error: AcquireError::NoAvailableCountries }));
}

#[test]
fn error_status_everywhere_makes_three_requests_per_country() {
    let (asked, _, action) = drive(
        "https://tidal.com/t/1",
        &["US", "DE"],
        |_, n| accepted(&format!("job{n}")),
        |_| (status("error", "failed"), 0),
    );
    assert_eq!(asked, vec!["US", "US", "US", "DE", "DE", "DE"]);
    assert!(matches!(action, Action::Fail { error: AcquireError::NoAvailableCountries }));
}

#[test]
fn rejections_everywhere_make_three_requests_per_country() {
    let (asked, messages, action) = drive(
        "https://qobuz.com/a/1",
        &["US", "DE", "FR"],
        |_, _| rejected(),
        |_| panic!("no job was accepted"),
    );
    assert_eq!(asked.len(), 9);
    assert!(messages.is_empty());
    assert!(matches!(action, Action::Fail { error: AcquireError::NoAvailableCountries }));
}

#[test]
fn success_in_second_country_stops_requests() {
    let (asked, messages, action) = drive(
        "https://tidal.com/t/1",
        &["US", "DE", "FR", "JP"],
        |code, _| if code == "DE" { accepted("good") } else { rejected() },
        |_| (status("completed", "done"), 5),
    );
    assert_eq!(asked, vec!["US", "US", "US", "DE"]);
    assert_eq!(messages, vec!["done", "Downloading stream locally"]);
    match action {
        Action::Download { id } => assert_eq!(id, "good"),
        _ => panic!("expected a download"),
    }
}

#[test]
fn status_queries_wait_one_second_after_the_first() {
    let (mut acq, _) = Acquisition::begin("https://tidal.com/t/1", false);
    acq.advance(Event::Countries { countries: countries(&["US"]) });
    let step = acq.advance(Event::Stream { response: accepted("j") });
    assert!(matches!(step.action, Action::FetchStatus { delay_secs: 0, .. }));
    let step = acq.advance(Event::Status { response: status("processing", "a"), now_ms: 0 });
    assert!(matches!(step.action, Action::FetchStatus { delay_secs: 1, .. }));
}

#[test]
fn processing_forever_times_out_after_sixty_seconds() {
    let (asked, messages, action) = drive(
        "https://tidal.com/t/1",
        &["US"],
        |_, _| accepted("slow"),
        |n| (status("processing", "working"), (n as i64 % 62) * 1000),
    );
    assert_eq!(asked.len(), 3);
    let timeouts = messages
        .iter()
        .filter(|m| m.as_str() == "Processing timeout, retrying...")
        .count();
    assert_eq!(timeouts, 3);
    assert!(matches!(action, Action::Fail { error: AcquireError::NoAvailableCountries }));
}

#[test]
fn repeated_messages_are_emitted_once_in_order() {
    let script = ["queued", "queued", "converting", "converting", "queued", "done"];
    let (_, messages, action) = drive(
        "https://deezer.com/track/9",
        &["FR"],
        |_, _| accepted("j"),
        |n| {
            let s = if n + 1 == script.len() { "completed" } else { "processing" };
            (status(s, script[n]), n as i64 * 1000)
        },
    );
    assert_eq!(
        messages,
        vec!["queued", "converting", "queued", "done", "Downloading stream locally"]
    );
    assert!(matches!(action, Action::Download { .. }));
}

#[test]
fn poller_timeout_boundary() {
    let (mut p, first) = StatusPoller::start(&status("processing", "a"), 1_000);
    assert_eq!(first.messages, vec!["a"]);
    assert_eq!(first.status, JobStatus::Pending);
    let s = p.observe(&status("processing", "a"), 61_999);
    assert!(s.messages.is_empty());
    assert_eq!(s.status, JobStatus::Pending);
    let s = p.observe(&status("processing", "b"), 62_000);
    assert_eq!(s.messages, vec!["b", "Processing timeout, retrying..."]);
    assert_eq!(s.status, JobStatus::TimedOut);
}

#[test]
fn status_words() {
    assert_eq!(classify_status("completed"), JobStatus::Completed);
    assert_eq!(classify_status("error"), JobStatus::Failed);
    assert_eq!(classify_status("processing"), JobStatus::Pending);
    assert_eq!(classify_status("Completed"), JobStatus::Pending);
}
