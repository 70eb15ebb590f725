//! The correlation protocol: a caller marks a request as outstanding, a
//! worker delivers the response if the request still is, and the caller
//! collects it. Each step is one atomic operation of the broker; this module
//! names the keys, holds the two scripts, and states what each step does to
//! the pair of keys.

use vstd::prelude::*;
use vstd::string::*;

verus! {

/// The script a worker runs to deliver a response: where the request key
/// (`KEYS[1]`) exists, it is deleted and the response key (`KEYS[2]`) is set
/// to `ARGV[1]`.
pub const DELIVER_SCRIPT: &'static str = "
    if redis.call('exists', KEYS[1]) == 1 then
        redis.call('del', KEYS[1])
        redis.call('set', KEYS[2], ARGV[1])
        return 1
    else
        return 0
    end
  ";

/// The script a caller runs to collect a response: where the response key
/// (`KEYS[2]`) exists, its value is returned and both keys are deleted.
pub const COLLECT_SCRIPT: &'static str = "
    if redis.call(\"EXISTS\", KEYS[2]) == 1 then
        local value = redis.call(\"GET\", KEYS[2])
        redis.call(\"DEL\", KEYS[1])
        redis.call(\"DEL\", KEYS[2])
        return value
    else
        return nil
    end
  ";

/// The key whose existence says that a caller is waiting.
pub open spec fn request_key_of(job_key: Seq<char>) -> Seq<char> {
    job_key + ":request"@
}

/// The key that holds the response once it is delivered.
pub open spec fn response_key_of(job_key: Seq<char>) -> Seq<char> {
    job_key + ":response"@
}

/// The key whose existence says that a caller is waiting.
pub fn request_key(job_key: &str) -> (key: String)
    ensures
        key@ == request_key_of(job_key@),
{
    String::from_str(job_key).concat(":request")
}

/// The key that holds the response once it is delivered.
pub fn response_key(job_key: &str) -> (key: String)
    ensures
        key@ == response_key_of(job_key@),
{
    String::from_str(job_key).concat(":response")
}

/// The two keys of a job never coincide.
pub proof fn lemma_keys_differ(job_key: Seq<char>)
    ensures
        request_key_of(job_key) != response_key_of(job_key),
{
    reveal_strlit(":request");
    reveal_strlit(":response");
    assert(request_key_of(job_key).len() == job_key.len() + 8);
    assert(response_key_of(job_key).len() == job_key.len() + 9);
}

/// The pair of keys of one job, as the broker holds them.
#[derive(Debug)]
pub struct Handshake {
    /// Whether the request key exists.
    pub request: bool,
    /// The value of the response key, where it exists.
    pub response: Option<String>,
}

/// The mathematical value of a [`Handshake`].
pub struct HandshakeModel {
    pub request: bool,
    pub response: Option<Seq<char>>,
}

impl View for Handshake {
    type V = HandshakeModel;

    open spec fn view(&self) -> HandshakeModel {
        HandshakeModel {
            request: self.request,
            response: match self.response {
                Some(s) => Some(s@),
                None => None,
            },
        }
    }
}

/// One step that a party takes on the pair of keys.
pub enum Step {
    /// The caller marks the request as outstanding.
    Mark,
    /// A worker delivers a payload if the request is outstanding.
    Deliver(Seq<char>),
    /// The caller collects the response if there is one.
    Collect,
    /// The caller gives up and deletes the request key.
    Abandon,
}

impl HandshakeModel {
    /// The pair with neither key.
    pub open spec fn idle() -> HandshakeModel {
        HandshakeModel { request: false, response: None }
    }

    /// At most one of the two keys exists.
    pub open spec fn exclusive(self) -> bool {
        !(self.request && self.response is Some)
    }

    /// The pair after the caller marked the request as outstanding.
    pub open spec fn marked(self) -> HandshakeModel {
        HandshakeModel { request: true, ..self }
    }

    /// Whether a delivery takes place: the request is outstanding.
    pub open spec fn delivers(self) -> bool {
        self.request
    }

    /// The pair after a worker tried to deliver `payload`.
    pub open spec fn delivered(self, payload: Seq<char>) -> HandshakeModel {
        if self.request {
            HandshakeModel { request: false, response: Some(payload) }
        } else {
            self
        }
    }

    /// The pair after the caller tried to collect the response.
    pub open spec fn collected(self) -> HandshakeModel {
        if self.response is Some {
            HandshakeModel::idle()
        } else {
            self
        }
    }

    /// The pair after the caller gave up.
    pub open spec fn abandoned(self) -> HandshakeModel {
        HandshakeModel { request: false, ..self }
    }

    /// The pair after one step.
    pub open spec fn after(self, step: Step) -> HandshakeModel {
        match step {
            Step::Mark => self.marked(),
            Step::Deliver(payload) => self.delivered(payload),
            Step::Collect => self.collected(),
            Step::Abandon => self.abandoned(),
        }
    }

    /// The pair after a run of steps.
    pub open spec fn after_all(self, steps: Seq<Step>) -> HandshakeModel
        decreases steps.len(),
    {
        if steps.len() == 0 {
            self
        } else {
            self.after_all(steps.drop_last()).after(steps.last())
        }
    }
}

/// Whether, in a run of steps from a given pair, the caller marks a request
/// only while no response is waiting to be collected.
pub open spec fn marks_when_collected(start: HandshakeModel, steps: Seq<Step>) -> bool {
    forall|k: int|
        0 <= k < steps.len() && #[trigger] steps[k] is Mark ==> start.after_all(
            steps.subrange(0, k),
        ).response is None
}

impl Handshake {
    /// The pair with neither key.
    pub fn new() -> (h: Handshake)
        ensures
            h@ == HandshakeModel::idle(),
    {
        Handshake { request: false, response: None }
    }

    /// The caller marks the request as outstanding.
    pub fn mark_outstanding(&mut self)
        ensures
            final(self)@ == old(self)@.marked(),
    {
        self.request = true;
    }

    /// A worker delivers `payload` if the request is outstanding: the request
    /// key goes and the response key holds the payload. Otherwise nothing
    /// changes. Returns whether the payload was delivered.
    pub fn deliver_if_outstanding(&mut self, payload: String) -> (delivered: bool)
        ensures
            delivered == old(self)@.delivers(),
            final(self)@ == old(self)@.delivered(payload@),
    {
        if self.request {
            self.request = false;
            self.response = Some(payload);
            true
        } else {
            false
        }
    }

    /// The caller collects the response if there is one: both keys go, and
    /// the response is returned. Otherwise nothing changes.
    pub fn collect(&mut self) -> (payload: Option<String>)
        ensures
            final(self)@ == old(self)@.collected(),
            match payload {
                Some(p) => old(self)@.response == Some(p@),
                None => old(self)@.response is None,
            },
    {
        if self.response.is_some() {
            self.request = false;
            self.response.take()
        } else {
            None
        }
    }

    /// The caller gives up: the request key goes.
    pub fn abandon(&mut self)
        ensures
            final(self)@ == old(self)@.abandoned(),
    {
        self.request = false;
    }
}

/// Exclusivity of the two keys is kept by every step, but for a request
/// marked while a response still waits to be collected.
pub proof fn lemma_step_keeps_exclusive(h: HandshakeModel, step: Step)
    requires
        h.exclusive(),
        step is Mark ==> h.response is None,
    ensures
        h.after(step).exclusive(),
{
}

/// Handshake exclusivity: from a pair with neither key, through any run of
/// steps in which the caller marks a request only while no response waits to
/// be collected, the request key and the response key never exist together.
pub proof fn lemma_handshake_exclusive(steps: Seq<Step>, k: int)
    requires
        marks_when_collected(HandshakeModel::idle(), steps),
        0 <= k <= steps.len(),
    ensures
        HandshakeModel::idle().after_all(steps.subrange(0, k)).exclusive(),
    decreases k,
{
    if k > 0 {
        lemma_handshake_exclusive(steps, k - 1);
        let prefix = steps.subrange(0, k);
        assert(prefix.drop_last() == steps.subrange(0, k - 1));
        assert(prefix.last() == steps[k - 1]);
        lemma_step_keeps_exclusive(
            HandshakeModel::idle().after_all(steps.subrange(0, k - 1)),
            steps[k - 1],
        );
    }
}

/// At most one delivery: of two workers that deliver for the same
/// outstanding request, whichever comes first delivers and the other does
/// not; the response is the payload of the first.
pub proof fn lemma_one_delivery(h: HandshakeModel, first: Seq<char>, second: Seq<char>)
    requires
        h.request,
    ensures
        h.delivers(),
        !h.delivered(first).delivers(),
        h.delivered(first).delivered(second) == h.delivered(first),
        h.delivered(first).response == Some(first),
{
}

/// Without an outstanding request no worker delivers, however many try.
pub proof fn lemma_no_delivery_without_request(h: HandshakeModel, payload: Seq<char>)
    requires
        !h.request,
    ensures
        !h.delivers(),
        h.delivered(payload) == h,
{
}

/// Timeout discard: once the caller has given up, a late delivery is
/// refused and changes nothing.
pub proof fn lemma_late_delivery_discarded(h: HandshakeModel, payload: Seq<char>)
    ensures
        !h.abandoned().delivers(),
        h.abandoned().delivered(payload) == h.abandoned(),
{
}

} // verus!
