//! The acquisition loop as a state machine: the caller performs each action
//! and hands back the answer as an event.

use vstd::prelude::*;

use crate::model::{Country, StatusResponse, StreamResponse};
use crate::poll::{poll_messages, poll_started, poll_status, texts, JobStatus, StatusPoller};
use crate::request::StreamRequest;
use crate::service::{resolved, LucidaService};

verus! {

/// Stream requests made for each country before moving to the next one.
pub const ATTEMPTS_PER_COUNTRY: usize = 3;

/// Why an acquisition ended without a file.
#[derive(Clone, Copy, Debug, PartialEq, Eq, Structural)]
pub enum AcquireError {
    /// The URL names no supported service.
    UnknownService,
    /// Every attempt in every country failed, or no country is offered.
    NoAvailableCountries,
}

/// What the caller must do next.
#[derive(Debug)]
pub enum Action {
    /// List the countries offered for the service.
    FetchCountries { service: LucidaService },
    /// Send a stream request.
    FetchStream { request: StreamRequest },
    /// Query the job's status after sleeping `delay_secs` seconds.
    FetchStatus { id: String, delay_secs: u64 },
    /// Fetch the finished file; the acquisition is over.
    Download { id: String },
    /// Give up; the acquisition is over.
    Fail { error: AcquireError },
}

/// The answer to the latest action.
#[derive(Debug)]
#[allow(inconsistent_fields)]
pub enum Event {
    Countries { countries: Vec<Country> },
    Stream { response: StreamResponse },
    /// A status snapshot and the clock, in milliseconds, when it arrived.
    Status { response: StatusResponse, now_ms: i64 },
}

/// Messages to hand to the progress sink, in order, then the next action.
#[derive(Debug)]
pub struct Step {
    pub messages: Vec<String>,
    pub action: Action,
}

#[derive(Debug)]
pub enum Phase {
    AwaitCountries,
    AwaitStream,
    AwaitStatus { id: String, poller: Option<StatusPoller> },
    Delivered,
    Failed,
}

/// One acquisition: the retry loop over countries and attempts.
pub struct Acquisition {
    pub url: String,
    pub metadata: bool,
    /// Country codes in the server's order.
    pub codes: Vec<String>,
    pub country: usize,
    pub attempt: usize,
    pub phase: Phase,
    /// The country of each stream request made so far.
    pub requested: Ghost<Seq<Seq<char>>>,
}

/// The countries of the first `len` stream requests: each code three times,
/// in order.
pub open spec fn slot_log(codes: Seq<String>, len: int) -> Seq<Seq<char>> {
    Seq::new(len as nat, |k: int| codes[k / 3]@)
}

/// `request` is the stream request for `url` under the account `code`.
pub open spec fn requests(request: StreamRequest, url: Seq<char>, code: Seq<char>, metadata: bool) -> bool {
    &&& request.account.id@ == code
    &&& request.account.account_type@ == "country"@
    &&& request.downscale@ == "original"@
    &&& request.handoff
    &&& request.metadata == metadata
    &&& request.private
    &&& !request.upload.enabled
    &&& request.upload.service@ == "pixeldrain"@
    &&& request.url@ == url
}

proof fn lemma_slot_div(c: int, a: int)
    requires
        c >= 0,
        0 <= a < 3,
    ensures
        (3 * c + a) / 3 == c,
{
    assert((3 * c + a) / 3 == c) by (nonlinear_arith)
        requires
            c >= 0,
            0 <= a < 3,
    ;
}

/// After a failed attempt: the next attempt, in the same country while it has
/// attempts left, else in the next country; or the end, when none is left.
pub open spec fn retried(old: Acquisition, new: Acquisition, action: Action) -> bool {
    &&& new.url == old.url
    &&& new.metadata == old.metadata
    &&& new.codes == old.codes
    &&& if old.attempt + 1 < 3 || old.country + 1 < old.codes@.len() {
        &&& if old.attempt + 1 < 3 {
            new.country == old.country && new.attempt == old.attempt + 1
        } else {
            new.country == old.country + 1 && new.attempt == 0
        }
        &&& new.phase is AwaitStream
        &&& new.requested@ == old.requested@.push(old.codes@[new.country as int]@)
        &&& action matches Action::FetchStream { request } && requests(
            request,
            old.url@,
            old.codes@[new.country as int]@,
            old.metadata,
        )
    } else {
        &&& new.phase is Failed
        &&& new.requested == old.requested
        &&& action matches Action::Fail { error } && error == AcquireError::NoAvailableCountries
    }
}

/// The same attempt goes on.
pub open spec fn same_attempt(old: Acquisition, new: Acquisition) -> bool {
    &&& new.url == old.url
    &&& new.metadata == old.metadata
    &&& new.codes == old.codes
    &&& new.country == old.country
    &&& new.attempt == old.attempt
    &&& new.requested == old.requested
}

/// The message emitted before the download.
pub open spec fn downloading_message() -> Seq<char> {
    "Downloading stream locally"@
}

/// How an event moves the acquisition, and what it asks next.
pub open spec fn advanced(old: Acquisition, event: Event, new: Acquisition, step: Step) -> bool {
    match event {
        Event::Countries { countries } => {
            &&& new.url == old.url
            &&& new.metadata == old.metadata
            &&& new.codes@.len() == countries@.len()
            &&& forall|i: int| 0 <= i < countries@.len() ==> #[trigger] new.codes@[i]@ == countries@[i].code@
            &&& texts(step.messages@) == Seq::<Seq<char>>::empty()
            &&& if countries@.len() == 0 {
                &&& new.phase is Failed
                &&& new.requested@ == Seq::<Seq<char>>::empty()
                &&& step.action matches Action::Fail { error } && error == AcquireError::NoAvailableCountries
            } else {
                &&& new.country == 0 && new.attempt == 0
                &&& new.phase is AwaitStream
                &&& new.requested@ == seq![countries@[0].code@]
                &&& step.action matches Action::FetchStream { request } && requests(
                    request,
                    old.url@,
                    countries@[0].code@,
                    old.metadata,
                )
            }
        },
        Event::Stream { response } => {
            &&& texts(step.messages@) == Seq::<Seq<char>>::empty()
            &&& if response.success && response.handoff is Some {
                &&& same_attempt(old, new)
                &&& new.phase matches Phase::AwaitStatus { id, poller } && id == response.handoff->0
                    && poller is None
                &&& step.action matches Action::FetchStatus { id, delay_secs } && id
                    == response.handoff->0 && delay_secs == 0
            } else {
                retried(old, new, step.action)
            }
        },
        Event::Status { response, now_ms } => match old.phase {
            Phase::AwaitStatus { id, poller } => {
                let msgs = poll_messages(poller, response, now_ms as int);
                match poll_status(poller, response, now_ms as int) {
                    JobStatus::Pending => {
                        &&& texts(step.messages@) == msgs
                        &&& same_attempt(old, new)
                        &&& new.phase matches Phase::AwaitStatus { id: next_id, poller: Some(p) }
                            && next_id == id && p.last_message@ == response.message@
                            && p.started_ms == poll_started(poller, now_ms)
                        &&& step.action matches Action::FetchStatus { id: query, delay_secs }
                            && query == id && delay_secs == 1
                    },
                    JobStatus::Completed => {
                        &&& texts(step.messages@) == msgs.push(downloading_message())
                        &&& same_attempt(old, new)
                        &&& new.phase is Delivered
                        &&& step.action matches Action::Download { id: fetch } && fetch == id
                    },
                    _ => {
                        &&& texts(step.messages@) == msgs
                        &&& retried(old, new, step.action)
                    },
                }
            },
            _ => false,
        },
    }
}

impl Acquisition {
    /// Index of the current attempt over all countries.
    pub open spec fn slot(&self) -> int {
        3 * self.country + self.attempt
    }

    pub open spec fn wf(&self) -> bool {
        match self.phase {
            Phase::AwaitCountries => self.requested@ == Seq::<Seq<char>>::empty(),
            Phase::Failed => true,
            _ => {
                &&& self.country < self.codes@.len()
                &&& self.attempt < 3
                &&& self.requested@ == slot_log(self.codes@, self.slot() + 1)
            },
        }
    }

    /// The event is the answer to the action last asked for.
    pub open spec fn awaits(&self, event: &Event) -> bool {
        match event {
            Event::Countries { .. } => self.phase is AwaitCountries,
            Event::Stream { .. } => self.phase is AwaitStream,
            Event::Status { .. } => self.phase is AwaitStatus,
        }
    }

    pub fn accepts(&self, event: &Event) -> (r: bool)
        ensures
            r == self.awaits(event),
    {
        match event {
            Event::Countries { .. } => matches!(self.phase, Phase::AwaitCountries),
            Event::Stream { .. } => matches!(self.phase, Phase::AwaitStream),
            Event::Status { .. } => matches!(self.phase, Phase::AwaitStatus { .. }),
        }
    }

    /// Starts an acquisition of `url`: fails at once when it names no service.
    pub fn begin(url: &str, metadata: bool) -> (r: (Acquisition, Step))
        ensures
            r.0.wf(),
            r.0.url@ == url@,
            r.0.metadata == metadata,
            texts(r.1.messages@) == Seq::<Seq<char>>::empty(),
            match resolved(url@) {
                None => r.0.phase is Failed && (r.1.action matches Action::Fail { error } && error
                    == AcquireError::UnknownService),
                Some(s) => r.0.phase is AwaitCountries && (r.1.action matches Action::FetchCountries {
                    service,
                } && service == s),
            },
    {
        let messages: Vec<String> = Vec::new();
        assert(texts(messages@) =~= Seq::<Seq<char>>::empty());
        let (phase, action) = match LucidaService::resolve(url) {
            None => (Phase::Failed, Action::Fail { error: AcquireError::UnknownService }),
            Some(service) => (Phase::AwaitCountries, Action::FetchCountries { service }),
        };
        (
            Acquisition {
                url: url.to_owned(),
                metadata,
                codes: Vec::new(),
                country: 0,
                attempt: 0,
                phase,
                requested: Ghost(Seq::empty()),
            },
            Step { messages, action },
        )
    }

    fn request(&self) -> (r: StreamRequest)
        requires
            self.country < self.codes@.len(),
        ensures
            requests(r, self.url@, self.codes@[self.country as int]@, self.metadata),
    {
        StreamRequest::new(self.url.as_str(), Some(self.codes[self.country].as_str()), self.metadata)
    }

    /// Moves past a failed attempt.
    fn retry(&mut self) -> (action: Action)
        requires
            old(self).wf(),
            old(self).phase is AwaitStream || old(self).phase is AwaitStatus,
        ensures
            final(self).wf(),
            retried(*old(self), *final(self), action),
    {
        if self.attempt + 1 < ATTEMPTS_PER_COUNTRY {
            self.attempt = self.attempt + 1;
        } else if self.country < self.codes.len() - 1 {
            self.country = self.country + 1;
            self.attempt = 0;
        } else {
            self.phase = Phase::Failed;
            return Action::Fail { error: AcquireError::NoAvailableCountries };
        }
        proof {
            lemma_slot_div(self.country as int, self.attempt as int);
        }
        self.requested = Ghost(self.requested@.push(self.codes@[self.country as int]@));
        assert(self.requested@ =~= slot_log(self.codes@, self.slot() + 1));
        self.phase = Phase::AwaitStream;
        Action::FetchStream { request: self.request() }
    }

    /// Takes the answer to the latest action and says what to do next.
    pub fn advance(&mut self, event: Event) -> (step: Step)
        requires
            old(self).wf(),
            old(self).awaits(&event),
        ensures
            final(self).wf(),
            advanced(*old(self), event, *final(self), step),
    {
        let mut messages: Vec<String> = Vec::new();
        assert(texts(messages@) =~= Seq::<Seq<char>>::empty());
        match event {
            Event::Countries { countries } => {
                let mut codes: Vec<String> = Vec::new();
                let mut i: usize = 0;
                while i < countries.len()
                    invariant
                        i <= countries@.len(),
                        codes@.len() == i,
                        forall|j: int| 0 <= j < i ==> #[trigger] codes@[j]@ == countries@[j].code@,
                    decreases countries@.len() - i,
                {
                    codes.push(countries[i].code.clone());
                    i += 1;
                }
                self.codes = codes;
                if self.codes.len() == 0 {
                    self.phase = Phase::Failed;
                    return Step { messages, action: Action::Fail { error: AcquireError::NoAvailableCountries } };
                }
                self.country = 0;
                self.attempt = 0;
                self.requested = Ghost(Seq::empty().push(self.codes@[0]@));
                assert(self.requested@ =~= slot_log(self.codes@, 1));
                self.phase = Phase::AwaitStream;
                Step { messages, action: Action::FetchStream { request: self.request() } }
            },
            Event::Stream { response } => {
                if response.success {
                    if let Some(id) = response.handoff {
                        self.phase = Phase::AwaitStatus { id: id.clone(), poller: None };
                        return Step { messages, action: Action::FetchStatus { id, delay_secs: 0 } };
                    }
                }
                Step { messages, action: self.retry() }
            },
            Event::Status { response, now_ms } => {
                let (id, poller) = match &self.phase {
                    Phase::AwaitStatus { id, poller } => (id.clone(), StatusPoller::step(poller, &response, now_ms)),
                    _ => {
                        assert(false);
                        return Step { messages, action: Action::Fail { error: AcquireError::NoAvailableCountries } };
                    },
                };
                let (next, polled) = poller;
                let mut messages = polled.messages;
                match polled.status {
                    JobStatus::Pending => {
                        self.phase = Phase::AwaitStatus { id: id.clone(), poller: Some(next) };
                        Step { messages, action: Action::FetchStatus { id, delay_secs: crate::poll::POLL_INTERVAL_SECS } }
                    },
                    JobStatus::Completed => {
                        let ghost before = texts(messages@);
                        messages.push("Downloading stream locally".to_owned());
                        assert(texts(messages@) =~= before.push(downloading_message()));
                        self.phase = Phase::Delivered;
                        Step { messages, action: Action::Download { id } }
                    },
                    _ => Step { messages, action: self.retry() },
                }
            },
        }
    }
}

/// An acquisition that gives up for want of countries has sent exactly three
/// stream requests for each listed country, in the server's order.
pub proof fn lemma_exhaustion_asks_every_country(
    old: Acquisition,
    event: Event,
    new: Acquisition,
    step: Step,
)
    requires
        old.wf(),
        old.awaits(&event),
        advanced(old, event, new, step),
        step.action matches Action::Fail { error } && error == AcquireError::NoAvailableCountries,
    ensures
        new.requested@ == slot_log(new.codes@, 3 * new.codes@.len() as int),
        new.requested@.len() == 3 * new.codes@.len(),
{
    match event {
        Event::Countries { countries } => {
            assert(new.requested@ =~= slot_log(new.codes@, 0));
        },
        _ => {},
    }
}

/// Once the file is handed out the acquisition takes no more events, and every
/// stream request it made was for a country no later than the one whose attempt
/// succeeded.
pub proof fn lemma_delivery_stops_requests(a: Acquisition)
    requires
        a.wf(),
        a.phase is Delivered,
    ensures
        forall|e: Event| !a.awaits(&e),
        a.requested@.len() == a.slot() + 1,
        forall|k: int|
            0 <= k < a.requested@.len() ==> k / 3 <= a.country && #[trigger] a.requested@[k]
                == a.codes@[k / 3]@,
{
    assert forall|k: int| 0 <= k < a.requested@.len() implies #[trigger] a.requested@[k] == a.codes@[k / 3]@ && k / 3 <= a.country by {
        assert(k <= 3 * a.country + 2);
        assert(k / 3 <= a.country) by (nonlinear_arith)
            requires
                0 <= k <= 3 * a.country + 2,
        ;
    }
}

} // verus!
