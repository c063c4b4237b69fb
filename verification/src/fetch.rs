//! The fetch state machine: one logical navigation, from a resolved
//! address through zero or more redirects to a parsed document or a
//! failure, with the trusted boundary to the external transport.

use vstd::prelude::*;

use crate::address::{Address, AddressView, is_qualified, path_of, root_of};
use crate::document::{
    BlockView, DocumentBlock, blocks_view, contains_lone_marker, decode_utf8, gemtext_blocks,
    has_lone_marker, parse_document, utf8_result,
};

verus! {

/// The status of a protocol response, as the transport reports it. The
/// payload digit is the second digit of the two-digit code, except for
/// `Unknown`, which carries the whole code.
#[derive(Debug, Clone, Copy, PartialEq, Eq, Structural)]
pub enum Status {
    Input(u8),
    Success(u8),
    Redirect(u8),
    TemporaryFailure(u8),
    PermanentFailure(u8),
    ClientCertRequired(u8),
    Unknown(u8),
}

/// A protocol response: status, meta text, and payload bytes.
pub struct TransportResponse {
    pub status: Status,
    pub meta: String,
    pub data: Vec<u8>,
}

/// What one request produced: a response, or a transport-level failure
/// with its detail.
pub enum TransportEvent {
    Failed(String),
    Response(TransportResponse),
}

/// Mathematical model of a [`TransportEvent`].
pub ghost enum EventView {
    Failed(Seq<char>),
    Response(Status, Seq<char>, Seq<u8>),
}

impl View for TransportEvent {
    type V = EventView;

    open spec fn view(&self) -> EventView {
        match self {
            TransportEvent::Failed(d) => EventView::Failed(d@),
            TransportEvent::Response(r) => EventView::Response(r.status, r.meta@, r.data@),
        }
    }
}

/// Why a fetch failed.
#[derive(Debug, PartialEq, Eq)]
pub enum FetchError {
    /// The transport could not complete the exchange; carries its detail.
    Transport(String),
    /// The response status was neither success nor redirect.
    UnknownStatus(Status),
    /// The payload was not valid UTF-8 text; carries the decoder's detail.
    Decoding(String),
    /// A redirect's target did not resolve as a qualified address;
    /// carries that target text.
    BadRedirect(String),
    /// The document holds a line the external parser cannot handle (a
    /// line of exactly "=", "*" or ">").
    UnsupportedDocument,
    /// The fetch followed the maximum number of redirects without
    /// reaching a terminal response.
    TooManyRedirects,
}

/// The most redirects one fetch follows before giving up.
pub const MAX_REDIRECTS: usize = 32;

/// The outcome of one fetch: a parsed document, or an error description.
#[derive(Debug, PartialEq, Eq)]
pub enum FetchOutcome {
    Success(Vec<DocumentBlock>),
    Failure(FetchError),
}

/// Mathematical model of a [`FetchError`].
pub ghost enum ErrorView {
    Transport(Seq<char>),
    UnknownStatus(Status),
    Decoding(Seq<char>),
    BadRedirect(Seq<char>),
    UnsupportedDocument,
    TooManyRedirects,
}

/// Mathematical model of a [`FetchOutcome`].
pub ghost enum OutcomeView {
    Success(Seq<BlockView>),
    Failure(ErrorView),
}

impl View for FetchError {
    type V = ErrorView;

    open spec fn view(&self) -> ErrorView {
        match self {
            FetchError::Transport(d) => ErrorView::Transport(d@),
            FetchError::UnknownStatus(s) => ErrorView::UnknownStatus(*s),
            FetchError::Decoding(d) => ErrorView::Decoding(d@),
            FetchError::BadRedirect(t) => ErrorView::BadRedirect(t@),
            FetchError::UnsupportedDocument => ErrorView::UnsupportedDocument,
            FetchError::TooManyRedirects => ErrorView::TooManyRedirects,
        }
    }
}

impl View for FetchOutcome {
    type V = OutcomeView;

    open spec fn view(&self) -> OutcomeView {
        match self {
            FetchOutcome::Success(blocks) => OutcomeView::Success(blocks_view(blocks@)),
            FetchOutcome::Failure(e) => OutcomeView::Failure(e@),
        }
    }
}

/// The outcome a successful response's payload leads to: the decoded
/// and parsed document, or the describing failure.
pub open spec fn payload_outcome(data: Seq<u8>) -> OutcomeView {
    match utf8_result(data) {
        Err(d) => OutcomeView::Failure(ErrorView::Decoding(d)),
        Ok(text) => if has_lone_marker(text) {
            OutcomeView::Failure(ErrorView::UnsupportedDocument)
        } else {
            OutcomeView::Success(gemtext_blocks(text))
        },
    }
}

/// The state of one fetch: still requesting some address, or done.
pub ghost enum MachineView {
    Fetching(AddressView),
    Done(OutcomeView),
}

/// One step of the fetch state machine: what a transport event does to
/// the fetch. A done fetch absorbs further events.
pub open spec fn machine_step(s: MachineView, ev: EventView) -> MachineView {
    match s {
        MachineView::Done(_) => s,
        MachineView::Fetching(_) => match ev {
            EventView::Failed(d) => MachineView::Done(
                OutcomeView::Failure(ErrorView::Transport(d)),
            ),
            EventView::Response(st, meta, data) => match st {
                Status::Redirect(_) => if is_qualified(meta) {
                    MachineView::Fetching(AddressView { root: root_of(meta), path: path_of(meta) })
                } else {
                    MachineView::Done(OutcomeView::Failure(ErrorView::BadRedirect(meta)))
                },
                Status::Success(_) => MachineView::Done(payload_outcome(data)),
                _ => MachineView::Done(OutcomeView::Failure(ErrorView::UnknownStatus(st))),
            },
        },
    }
}

/// The machine run over a sequence of transport events, one step each.
pub open spec fn run_machine(s: MachineView, events: Seq<EventView>) -> MachineView
    decreases events.len(),
{
    if events.len() == 0 {
        s
    } else {
        run_machine(machine_step(s, events[0]), events.skip(1))
    }
}

pub proof fn lemma_run_machine_snoc(s: MachineView, events: Seq<EventView>, ev: EventView)
    ensures
        run_machine(s, events.push(ev)) == machine_step(run_machine(s, events), ev),
    decreases events.len(),
{
    if events.len() == 0 {
        assert(events.push(ev)[0] == ev);
        assert(events.push(ev).skip(1) =~= Seq::<EventView>::empty());
        assert(run_machine(machine_step(s, ev), Seq::<EventView>::empty()) == machine_step(s, ev));
    } else {
        assert(events.push(ev)[0] == events[0]);
        assert(events.push(ev).skip(1) =~= events.skip(1).push(ev));
        lemma_run_machine_snoc(machine_step(s, events[0]), events.skip(1), ev);
        assert(run_machine(s, events) == run_machine(machine_step(s, events[0]), events.skip(1)));
    }
}

/// A done fetch stays done whatever events follow: no retry happens
/// after a terminal outcome.
pub proof fn lemma_done_absorbing(o: OutcomeView, events: Seq<EventView>)
    ensures
        run_machine(MachineView::Done(o), events) == MachineView::Done(o),
    decreases events.len(),
{
    if events.len() > 0 {
        lemma_done_absorbing(o, events.skip(1));
    }
}

/// The event is a redirect response whose target is qualified.
pub open spec fn redirect_event(ev: EventView) -> bool {
    ev matches EventView::Response(st, meta, _) && st matches Status::Redirect(_) && is_qualified(
        meta,
    )
}

/// The event is a success response.
pub open spec fn success_event(ev: EventView) -> bool {
    ev matches EventView::Response(st, _, _) && st matches Status::Success(_)
}

/// The payload of a response event.
pub open spec fn event_data(ev: EventView) -> Seq<u8> {
    match ev {
        EventView::Response(_, _, data) => data,
        EventView::Failed(_) => Seq::empty(),
    }
}

/// A fetch of N redirects (N >= 0) followed by one success issues
/// exactly N+1 requests: after every proper prefix of the events the
/// machine is still requesting, and after all of them it is done with
/// the final response's parsed payload.
pub proof fn lemma_redirect_chain(a: AddressView, events: Seq<EventView>)
    requires
        events.len() >= 1,
        forall|i: int| 0 <= i < events.len() - 1 ==> redirect_event(#[trigger] events[i]),
        success_event(events.last()),
    ensures
        run_machine(MachineView::Fetching(a), events) == MachineView::Done(
            payload_outcome(event_data(events.last())),
        ),
        forall|k: int|
            0 <= k < events.len() ==> run_machine(MachineView::Fetching(a), #[trigger] events.take(k))
                is Fetching,
    decreases events.len(),
{
    let start = MachineView::Fetching(a);
    if events.len() == 1 {
        assert(events.last() == events[0]);
        assert(events.skip(1) =~= Seq::<EventView>::empty());
        assert(run_machine(machine_step(start, events[0]), Seq::<EventView>::empty())
            == machine_step(start, events[0]));
        assert(events.take(0) =~= Seq::<EventView>::empty());
    } else {
        assert(redirect_event(events[0]));
        let s1 = machine_step(start, events[0]);
        assert(s1 is Fetching);
        let a1 = s1->Fetching_0;
        let rest = events.skip(1);
        assert(rest.last() == events.last());
        assert forall|i: int| 0 <= i < rest.len() - 1 implies redirect_event(
            #[trigger] rest[i],
        ) by {
            assert(rest[i] == events[i + 1]);
        }
        lemma_redirect_chain(a1, rest);
        assert(run_machine(start, events) == run_machine(s1, rest));
        assert forall|k: int| 0 <= k < events.len() implies run_machine(
            start,
            #[trigger] events.take(k),
        ) is Fetching by {
            if k > 0 {
                assert(events.take(k)[0] == events[0]);
                assert(events.take(k).skip(1) =~= events.skip(1).take(k - 1));
            }
        }
    }
}

/// A response whose status is neither success nor redirect ends the
/// fetch at once with a failure naming that status, and nothing that
/// follows changes it: the request is not retried.
pub proof fn lemma_terminal_status(
    a: AddressView,
    st: Status,
    meta: Seq<char>,
    data: Seq<u8>,
    later: Seq<EventView>,
)
    requires
        !(st matches Status::Success(_)),
        !(st matches Status::Redirect(_)),
    ensures
        ({
            let done = MachineView::Done(OutcomeView::Failure(ErrorView::UnknownStatus(st)));
            machine_step(MachineView::Fetching(a), EventView::Response(st, meta, data)) == done
                && run_machine(done, later) == done
        }),
{
    lemma_done_absorbing(OutcomeView::Failure(ErrorView::UnknownStatus(st)), later);
}

#[verifier::external_type_specification]
#[verifier::external_body]
pub struct ExGmiUrl(gmi::url::Url);

#[verifier::external_type_specification]
#[verifier::external_body]
pub struct ExGmiResponse(gmi::protocol::Response);

/// Relies on gmi::url::Url::try_from: parses address text into the
/// transport's URL form; on failure the error is carried as its message.
#[verifier::external_body]
fn request_url(text: &str) -> (r: Result<gmi::url::Url, String>) {
    match gmi::url::Url::try_from(text) {
        Ok(u) => Ok(u),
        Err(e) => Err(format!("{e}")),
    }
}

/// Relies on the public fields of gmi::protocol::Response: carries the
/// status, meta and data over into the library's response model.
#[verifier::external_body]
fn response_parts(r: gmi::protocol::Response) -> (t: TransportResponse) {
    let status = match r.status {
        gmi::protocol::StatusCode::Input(n) => Status::Input(n),
        gmi::protocol::StatusCode::Success(n) => Status::Success(n),
        gmi::protocol::StatusCode::Redirect(n) => Status::Redirect(n),
        gmi::protocol::StatusCode::TemporaryFailure(n) => Status::TemporaryFailure(n),
        gmi::protocol::StatusCode::PermanentFailure(n) => Status::PermanentFailure(n),
        gmi::protocol::StatusCode::ClientCertRequired(n) => Status::ClientCertRequired(n),
        gmi::protocol::StatusCode::Unknown(n) => Status::Unknown(n),
    };
    TransportResponse { status, meta: r.meta, data: r.data }
}

/// Relies on gmi::request::make_request: one protocol exchange for the
/// given URL. The outcome depends on the network, so nothing is assumed
/// of it; a failure carries the transport error's message.
#[verifier::external_body]
fn issue_request(url: &gmi::url::Url) -> (ev: TransportEvent) {
    match gmi::request::make_request(url) {
        Ok(r) => TransportEvent::Response(response_parts(r)),
        Err(e) => TransportEvent::Failed(format!("{e}")),
    }
}

/// Turns a successful response's payload into the fetch outcome: decode
/// as UTF-8, then parse into document blocks.
pub fn process_payload(data: Vec<u8>) -> (r: FetchOutcome)
    ensures
        r@ == payload_outcome(data@),
{
    match decode_utf8(&data) {
        Err(d) => FetchOutcome::Failure(FetchError::Decoding(d)),
        Ok(text) => {
            if contains_lone_marker(text.as_str()) {
                FetchOutcome::Failure(FetchError::UnsupportedDocument)
            } else {
                FetchOutcome::Success(parse_document(text.as_str()))
            }
        },
    }
}

/// What one transport event does to a fetch that is still requesting:
/// follow a redirect to its resolved target, or finish.
pub enum FetchStep {
    Follow(Address),
    Finish(FetchOutcome),
}

/// Decides the next step of a fetch from the transport's event. This is
/// exactly one step of the fetch state machine.
pub fn advance(ev: TransportEvent) -> (r: FetchStep)
    ensures
        forall|a: AddressView|
            machine_step(MachineView::Fetching(a), ev@) == (match r {
                FetchStep::Follow(next) => MachineView::Fetching(next@),
                FetchStep::Finish(o) => MachineView::Done(o@),
            }),
        r matches FetchStep::Follow(next) ==> next@.wf(),
{
    match ev {
        TransportEvent::Failed(d) => FetchStep::Finish(
            FetchOutcome::Failure(FetchError::Transport(d)),
        ),
        TransportEvent::Response(resp) => {
            let TransportResponse { status, meta, data } = resp;
            match status {
                Status::Redirect(_) => match Address::parse_qualified(meta.as_str()) {
                    Some(a) => FetchStep::Follow(a),
                    None => FetchStep::Finish(
                        FetchOutcome::Failure(FetchError::BadRedirect(meta)),
                    ),
                },
                Status::Success(_) => FetchStep::Finish(process_payload(data)),
                _ => FetchStep::Finish(
                    FetchOutcome::Failure(FetchError::UnknownStatus(status)),
                ),
            }
        },
    }
}

/// Runs one fetch to completion: request the address, follow redirects,
/// and terminate in a parsed document or a failure. The result is what
/// the fetch state machine yields for the sequence of transport events
/// that actually occurred, except that a fetch of more than
/// [`MAX_REDIRECTS`] redirects is cut off with a dedicated failure.
#[verifier::loop_isolation(false)]
pub fn run_fetch(address: Address) -> (r: FetchOutcome)
    ensures
        (exists|events: Seq<EventView>|
            run_machine(MachineView::Fetching(address@), events) == MachineView::Done(r@)) || (r@
            == OutcomeView::Failure(ErrorView::TooManyRedirects) && exists|events: Seq<EventView>|
            events.len() > MAX_REDIRECTS && run_machine(MachineView::Fetching(address@), events)
                is Fetching),
{
    let ghost start = MachineView::Fetching(address@);
    let mut current = address;
    let ghost mut events: Seq<EventView> = Seq::empty();
    let mut hops: usize = 0;
    loop
        invariant
            run_machine(start, events) == MachineView::Fetching(current@),
            events.len() == hops,
            hops <= MAX_REDIRECTS,
        decreases MAX_REDIRECTS - hops,
    {
        let text = current.to_text();
        let ev: TransportEvent = match request_url(text.as_str()) {
            Err(d) => TransportEvent::Failed(d),
            Ok(u) => issue_request(&u),
        };
        proof {
            lemma_run_machine_snoc(start, events, ev@);
            events = events.push(ev@);
        }
        match advance(ev) {
            FetchStep::Follow(next) => {
                if hops == MAX_REDIRECTS {
                    proof {
                        assert(run_machine(start, events) == MachineView::Fetching(next@));
                    }
                    return FetchOutcome::Failure(FetchError::TooManyRedirects);
                }
                hops += 1;
                current = next;
            },
            FetchStep::Finish(o) => {
                proof {
                    assert(machine_step(MachineView::Fetching(current@), ev@)
                        == MachineView::Done(o@));
                    assert(run_machine(MachineView::Fetching(address@), events)
                        == MachineView::Done(o@));
                }
                return o;
            },
        }
    }
}

} // verus!
