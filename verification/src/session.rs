//! The caller-visible session: current address, display state, history,
//! and the asynchronous coordination that hands a fetch to a worker and
//! polls for its outcome without blocking.

use vstd::prelude::*;

use crate::address::{
    Address, AddressView, ResolutionError, is_qualified, lemma_qualified_resolution_invariant,
    lemma_wf_text_parses, path_of, resolve, resolve_spec, root_of,
};
use crate::document::DocumentBlock;
use crate::fetch::{FetchError, FetchOutcome, run_fetch};
use crate::history::History;
use std::sync::mpsc::{Receiver, Sender};

verus! {

/// The page shown when none is named at startup.
pub const DEFAULT_STARTING_PAGE: &'static str = "gemini://gemini.circumlunar.space";

#[verifier::external_type_specification]
#[verifier::external_body]
#[verifier::reject_recursive_types(T)]
pub struct ExSender<T>(Sender<T>);

#[verifier::external_type_specification]
#[verifier::external_body]
#[verifier::reject_recursive_types(T)]
pub struct ExReceiver<T>(Receiver<T>);

/// Relies on std::sync::mpsc::channel: a connected sending and
/// receiving pair; what try_recv later yields depends on what is sent.
#[verifier::external_body]
fn outcome_channel() -> (Sender<FetchOutcome>, Receiver<FetchOutcome>) {
    std::sync::mpsc::channel()
}

/// Relies on Sender::clone: another sending half of the same channel.
#[verifier::external_body]
fn clone_sender(tx: &Sender<FetchOutcome>) -> Sender<FetchOutcome> {
    tx.clone()
}

/// Relies on Sender::send: delivers the outcome unless the receiver is
/// gone, in which case it is dropped; it does not panic either way.
#[verifier::external_body]
fn send_outcome(tx: &Sender<FetchOutcome>, outcome: FetchOutcome) {
    let _ = tx.send(outcome);
}

/// What one non-blocking poll of the channel found.
pub enum ReceiveEvent {
    /// A delivered outcome; the channel yields each sent outcome at most
    /// once.
    Received(FetchOutcome),
    /// Nothing waiting.
    Empty,
    /// Every sending half is gone and nothing more will arrive.
    Disconnected,
}

/// Relies on Receiver::try_recv: yields a sent outcome at most once, in
/// send order, without blocking; Empty while none is waiting; and
/// Disconnected once all senders are gone. Which of these comes back
/// depends on timing, so nothing more is assumed.
#[verifier::external_body]
fn try_receive(rx: &Receiver<FetchOutcome>) -> ReceiveEvent {
    match rx.try_recv() {
        Ok(o) => ReceiveEvent::Received(o),
        Err(std::sync::mpsc::TryRecvError::Empty) => ReceiveEvent::Empty,
        Err(std::sync::mpsc::TryRecvError::Disconnected) => ReceiveEvent::Disconnected,
    }
}

/// An error the session surfaces in place of content.
#[derive(Debug, PartialEq, Eq)]
pub enum SessionError {
    /// The navigation target could not be resolved; the navigation was
    /// aborted before any network activity.
    Resolution(ResolutionError),
    /// The fetch terminated in a failure.
    Fetch(FetchError),
    /// The worker was lost before delivering an outcome.
    ChannelClosed,
}

/// One pending fetch: the resolved address, and the sending half that
/// delivers its outcome back to the session that created it.
pub struct FetchJob {
    pub address: Address,
    pub tx: Sender<FetchOutcome>,
}

/// Runs the job's fetch to completion and delivers the outcome over the
/// job's channel. Meant to run on a worker of its own; it never blocks
/// the session.
pub fn perform_fetch(job: FetchJob) {
    let FetchJob { address, tx } = job;
    let outcome = run_fetch(address);
    send_outcome(&tx, outcome);
}

/// Delivers an already-computed outcome over the job's channel in place
/// of fetching it.
pub fn deliver_outcome(job: FetchJob, outcome: FetchOutcome) {
    send_outcome(&job.tx, outcome);
}

/// The navigation engine session: address bar text, display state,
/// in-flight flag, history, and the channel the pending outcome arrives
/// on.
///
/// Navigations started while another is in flight are not cancelled:
/// every worker delivers over the same channel, outcomes are absorbed in
/// delivery order, and the display is last-write-wins. A caller that
/// needs the most recent navigation to be authoritative must keep
/// polling until that navigation's outcome has arrived.
pub struct Gbrowse {
    pub tx: Sender<FetchOutcome>,
    pub rx: Receiver<FetchOutcome>,
    pub sites: History,
    /// The parsed content currently displayed, if any.
    pub content: Option<Vec<DocumentBlock>>,
    /// The error currently displayed, if any.
    pub error: Option<SessionError>,
    /// Whether a fetch is in flight.
    pub loading: bool,
    /// The address bar text.
    pub url: String,
}

/// How one poll event changes the session: delivered content is handed
/// back and loading ends; a delivered failure or a lost worker becomes
/// the session error; an empty poll changes nothing.
pub open spec fn absorb_rel(
    pre: Gbrowse,
    post: Gbrowse,
    ev: ReceiveEvent,
    r: Option<Vec<DocumentBlock>>,
) -> bool {
    &&& post.url == pre.url
    &&& post.history() == pre.history()
    &&& post.content == pre.content
    &&& match ev {
        ReceiveEvent::Received(o) => match o {
            FetchOutcome::Success(blocks) => r == Some(blocks) && !post.loading && post.error
                == pre.error,
            FetchOutcome::Failure(e) => r is None && !post.loading && post.error == Some(
                SessionError::Fetch(e),
            ),
        },
        ReceiveEvent::Empty => r is None && post == pre,
        ReceiveEvent::Disconnected => r is None && !post.loading && post.error == Some(
            SessionError::ChannelClosed,
        ),
    }
}

impl Gbrowse {
    /// The visited addresses, oldest first; the last is the one whose
    /// fetch is current.
    pub open spec fn history(&self) -> Seq<Seq<char>> {
        self.sites@
    }

    /// Every history entry is qualified address text: each was pushed
    /// after successful resolution.
    pub open spec fn wf(&self) -> bool {
        forall|i: int| 0 <= i < self.sites@.len() ==> is_qualified(#[trigger] self.sites@[i])
    }

    /// Creates the session: empty history, nothing displayed, no fetch
    /// in flight, and the given page (or the default starting page) in
    /// the address bar.
    pub fn new(page: Option<String>) -> (r: Gbrowse)
        ensures
            r.wf(),
            r.history() == Seq::<Seq<char>>::empty(),
            r.content is None,
            r.error is None,
            !r.loading,
            match page {
                Some(p) => r.url == p,
                None => r.url@ == DEFAULT_STARTING_PAGE@,
            },
    {
        let (tx, rx) = outcome_channel();
        Gbrowse {
            tx,
            rx,
            sites: History::new(),
            content: None,
            error: None,
            loading: false,
            url: match page {
                Some(p) => p,
                None => String::from_str(DEFAULT_STARTING_PAGE),
            },
        }
    }

    /// One navigation: resolves the target against the current address,
    /// clears the display, records history (unless moving back), marks a
    /// fetch in flight, and returns the job a worker must run. On
    /// resolution failure it records the error and starts nothing.
    pub fn change_site(&mut self, url: &str, moving_back: bool) -> (job: Option<FetchJob>)
        requires
            old(self).wf(),
        ensures
            final(self).wf(),
            ({
                let ctx = if is_qualified(old(self).url@) {
                    Some(
                        AddressView {
                            root: root_of(old(self).url@),
                            path: path_of(old(self).url@),
                        },
                    )
                } else {
                    None
                };
                match resolve_spec(url@, ctx) {
                    Some(av) => {
                        &&& job matches Some(j) && j.address@ == av && j.address@.wf()
                        &&& final(self).url@ == av.text()
                        &&& final(self).loading
                        &&& final(self).error is None
                        &&& final(self).content is None
                        &&& final(self).history() == (if moving_back {
                            old(self).history()
                        } else {
                            old(self).history().push(av.text())
                        })
                        // the history ends in the address now displayed
                        &&& !moving_back ==> final(self).history().last() == final(self).url@
                    },
                    None => {
                        &&& job is None
                        &&& final(self).url@ == url@
                        &&& (final(self).error matches Some(SessionError::Resolution(e))
                            && e.target@ == url@)
                        &&& final(self).content is None
                        &&& final(self).loading == old(self).loading
                        &&& final(self).history() == old(self).history()
                    },
                }
            }),
    {
        self.error = None;
        self.content = None;
        let context = Address::parse_qualified(self.url.as_str());
        let resolved = match &context {
            Some(c) => resolve(url, Some(c)),
            None => resolve(url, None),
        };
        match resolved {
            Err(e) => {
                self.url = String::from_str(url);
                self.error = Some(SessionError::Resolution(e));
                None
            },
            Ok(a) => {
                proof {
                    lemma_wf_text_parses(a@);
                }
                let text = a.to_text();
                self.url = text.clone();
                if !moving_back {
                    self.sites.push(text);
                }
                self.loading = true;
                Some(FetchJob { address: a, tx: clone_sender(&self.tx) })
            },
        }
    }

    /// Polls for the pending outcome without blocking and absorbs
    /// whatever the poll found.
    pub fn get_content(&mut self) -> (r: Option<Vec<DocumentBlock>>)
        ensures
            exists|ev: ReceiveEvent| absorb_rel(*old(self), *final(self), ev, r),
            old(self).wf() ==> final(self).wf(),
    {
        let ev = try_receive(&self.rx);
        let r = self.absorb(ev);
        r
    }

    /// Applies what one poll of the channel found to the session state.
    pub fn absorb(&mut self, ev: ReceiveEvent) -> (r: Option<Vec<DocumentBlock>>)
        ensures
            absorb_rel(*old(self), *final(self), ev, r),
            old(self).wf() ==> final(self).wf(),
    {
        match ev {
            ReceiveEvent::Received(o) => match o {
                FetchOutcome::Success(blocks) => {
                    self.loading = false;
                    Some(blocks)
                },
                FetchOutcome::Failure(e) => {
                    self.loading = false;
                    self.error = Some(SessionError::Fetch(e));
                    None
                },
            },
            ReceiveEvent::Empty => None,
            ReceiveEvent::Disconnected => {
                self.loading = false;
                self.error = Some(SessionError::ChannelClosed);
                None
            },
        }
    }

    /// There is a page to go back to: the history holds the current
    /// address and at least one before it.
    pub fn can_go_back(&self) -> (r: bool)
        ensures
            r == (self.history().len() > 1),
    {
        self.sites.len() > 1
    }

    /// Goes back: pops the current address off the history and
    /// re-fetches the entry before it, without re-pushing it. Does
    /// nothing unless there are at least two entries.
    pub fn go_back(&mut self) -> (job: Option<FetchJob>)
        requires
            old(self).wf(),
        ensures
            final(self).wf(),
            old(self).history().len() <= 1 ==> job is None && *final(self) == *old(self),
            old(self).history().len() > 1 ==> ({
                let prev = old(self).history()[old(self).history().len() - 2];
                &&& final(self).history() == old(self).history().drop_last()
                &&& job matches Some(j) && j.address@.text() == prev
                &&& final(self).url@ == prev
                // the history again ends in the address now displayed
                &&& final(self).history().last() == final(self).url@
                &&& final(self).loading
                &&& final(self).error is None
                &&& final(self).content is None
            }),
    {
        if self.sites.len() > 1 {
            self.sites.pop();
            let prev = match self.sites.peek_previous() {
                Some(s) => s.clone(),
                None => {
                    proof {
                        assert(false);
                    }
                    String::new()
                },
            };
            proof {
                assert(is_qualified(prev@));
                let ctx = if is_qualified(self.url@) {
                    Some(AddressView { root: root_of(self.url@), path: path_of(self.url@) })
                } else {
                    None
                };
                lemma_qualified_resolution_invariant(prev@, ctx);
            }
            let job = self.change_site(prev.as_str(), true);
            job
        } else {
            None
        }
    }
}

} // verus!
