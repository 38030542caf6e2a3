//! Adding to the queue: what is added, in what steps, and what is said about
//! it.
//!
//! The remote queue is a set that can only be appended to. What is in it
//! already is skipped. Where nothing plays yet, the first item is played
//! instead of queued, and the rest follows once the new session is there.

use vstd::prelude::*;
use vstd::string::*;

use crate::failure::{Failure, FailureModel, bad_input};
use crate::media::{MediaItem, MediaItemModel, Queue, QueueModel, item_uris, uris_of};
use crate::provider::{ProviderError, ProviderErrorModel};
use crate::queue_merge::no_uri_twice;
use crate::text::{
    concat3, concat4, concat5, decimal, lemma_seq_view_push, lemma_texts_push, list_has, opt_str,
    opt_view, seq_view, texts, u64_text,
};
use crate::uri::{ResourceUri, UriScheme, parsed_uri};

verus! {

broadcast use {lemma_seq_view_push, lemma_texts_push};

// ---------------------------------------------------------------------------
// What is added
// ---------------------------------------------------------------------------

/// The items whose URI is neither queued already nor that of an item kept
/// before them.
pub open spec fn unqueued(items: Seq<MediaItemModel>, queued: Seq<Seq<char>>) -> Seq<MediaItemModel>
    decreases items.len(),
{
    if items.len() == 0 {
        Seq::empty()
    } else {
        let kept = unqueued(items.drop_last(), queued);
        let last = items.last();
        if queued.contains(last.uri) || item_uris(kept).contains(last.uri) {
            kept
        } else {
            kept.push(last)
        }
    }
}

/// Keeps the items that are neither queued already nor repeated, and counts
/// the others.
pub fn dedup_queue_items(items: Vec<MediaItem>, already_queued: &[String]) -> (r: (
    Vec<MediaItem>,
    usize,
))
    ensures
        seq_view(r.0@) == unqueued(seq_view(items@), texts(already_queued@)),
        r.1 == items@.len() - r.0@.len(),
{
    let ghost all = seq_view(items@);
    let ghost queued = texts(already_queued@);
    let mut kept: Vec<MediaItem> = Vec::new();
    let mut kept_uris: Vec<String> = Vec::new();
    let mut skipped: usize = 0;
    let mut i: usize = 0;
    proof {
        assert(all.take(0) =~= Seq::<MediaItemModel>::empty());
        assert(seq_view(kept@) =~= Seq::<MediaItemModel>::empty());
        assert(texts(kept_uris@) =~= item_uris(seq_view(kept@)));
    }
    while i < items.len()
        invariant
            i <= items@.len(),
            all == seq_view(items@),
            queued == texts(already_queued@),
            seq_view(kept@) == unqueued(all.take(i as int), queued),
            texts(kept_uris@) == item_uris(seq_view(kept@)),
            skipped + kept@.len() == i,
        decreases items@.len() - i,
    {
        proof {
            assert(all.take(i as int + 1).drop_last() =~= all.take(i as int));
            assert(all.take(i as int + 1).last() == items@[i as int]@);
        }
        let uri = items[i].uri.as_str();
        if list_has(already_queued, uri) || list_has(kept_uris.as_slice(), uri) {
            skipped = skipped + 1;
        } else {
            let ghost before = item_uris(seq_view(kept@));
            kept_uris.push(items[i].uri.clone());
            kept.push(items[i].clone());
            assert(item_uris(seq_view(kept@)) =~= before.push(items@[i as int].uri@));
        }
        i = i + 1;
    }
    assert(all.take(all.len() as int) =~= all);
    (kept, skipped)
}

/// The URIs that new items are held against: those of a queue that belongs to
/// a live session. A queue that could not be read, or that is only remembered,
/// vetoes nothing.
pub open spec fn vetoing_uris(supported: bool, fetched: Option<QueueModel>) -> Seq<Seq<char>> {
    match fetched {
        Some(queue) => if supported && queue.session_active {
            item_uris(queue.items)
        } else {
            Seq::empty()
        },
        None => Seq::empty(),
    }
}

/// The URIs that new items are held against.
pub fn live_queue_uris(queue_read_supported: bool, fetched: &Option<Queue>) -> (r: Vec<String>)
    ensures
        texts(r@) == vetoing_uris(queue_read_supported, opt_view(*fetched)),
{
    if queue_read_supported {
        if let Some(queue) = fetched {
            if queue.session_active {
                return uris_of(queue.items.as_slice());
            }
        }
    }
    let none: Vec<String> = Vec::new();
    assert(texts(none@) =~= Seq::<Seq<char>>::empty());
    none
}

/// The scheme that a batch of URIs shares, none for an empty batch, or what
/// is wrong with the first URI that does not fit.
pub open spec fn batch_scheme(uris: Seq<Seq<char>>) -> Result<Option<Seq<char>>, FailureModel>
    decreases uris.len(),
{
    if uris.len() == 0 {
        Ok(None)
    } else {
        match batch_scheme(uris.drop_last()) {
            Err(error) => Err(error),
            Ok(expected) => match parsed_uri(uris.last()) {
                Err(error) => Err(FailureModel::Uri(error)),
                Ok(uri) => match expected {
                    None => Ok(Some(uri.scheme)),
                    Some(scheme) => if scheme == uri.scheme {
                        Ok(Some(scheme))
                    } else {
                        Err(
                            bad_input(
                                "uris"@,
                                "queue batch mixes provider schemes `"@ + scheme + "` and `"@
                                    + uri.scheme + "`"@,
                            ),
                        )
                    },
                },
            },
        }
    }
}

proof fn lemma_batch_error_persists(uris: Seq<Seq<char>>, n: int)
    requires
        0 <= n <= uris.len(),
        batch_scheme(uris.take(n)) is Err,
    ensures
        batch_scheme(uris) == batch_scheme(uris.take(n)),
    decreases uris.len() - n,
{
    if n < uris.len() {
        assert(uris.take(n + 1).drop_last() =~= uris.take(n));
        lemma_batch_error_persists(uris, n + 1);
    } else {
        assert(uris.take(n) =~= uris);
    }
}

/// The view of the scheme that a batch shares.
pub open spec fn batch_view(r: Result<Option<UriScheme>, Failure>) -> Result<
    Option<Seq<char>>,
    FailureModel,
> {
    match r {
        Ok(scheme) => Ok(opt_view(scheme)),
        Err(error) => Err(error@),
    }
}

/// The scheme that a batch of URIs shares: one batch goes to one provider.
pub fn validate_queue_batch_provider(uris: &[String]) -> (r: Result<Option<UriScheme>, Failure>)
    ensures
        batch_view(r) == batch_scheme(texts(uris@)),
{
    let ghost all = texts(uris@);
    let mut expected: Option<UriScheme> = None;
    let mut i: usize = 0;
    assert(all.take(0) =~= Seq::<Seq<char>>::empty());
    while i < uris.len()
        invariant
            i <= uris@.len(),
            all == texts(uris@),
            batch_scheme(all.take(i as int)) == Ok::<Option<Seq<char>>, FailureModel>(
                opt_view(expected),
            ),
        decreases uris@.len() - i,
    {
        proof {
            assert(all.take(i as int + 1).drop_last() =~= all.take(i as int));
            assert(all.take(i as int + 1).last() == uris@[i as int]@);
        }
        let uri = match ResourceUri::parse(uris[i].as_str()) {
            Ok(uri) => uri,
            Err(error) => {
                proof {
                    lemma_batch_error_persists(all, i as int + 1);
                }
                return Err(Failure::Uri(error));
            },
        };
        match &expected {
            Some(scheme) => {
                if !scheme.same(uri.scheme()) {
                    proof {
                        lemma_batch_error_persists(all, i as int + 1);
                    }
                    let message = concat5(
                        "queue batch mixes provider schemes `",
                        scheme.label(),
                        "` and `",
                        uri.scheme().label(),
                        "`",
                    );
                    return Err(Failure::invalid_input("uris", message.as_str()));
                }
            },
            None => {
                expected = Some(uri.scheme().clone());
            },
        }
        i = i + 1;
    }
    assert(all.take(all.len() as int) =~= all);
    Ok(expected)
}

// ---------------------------------------------------------------------------
// The steps
// ---------------------------------------------------------------------------

/// What appending one item came to.
#[derive(Clone, Debug, PartialEq, Eq)]
pub enum QueueAttempt {
    Queued,
    NoActiveDevice,
}

/// How often an append is tried again while a new session comes up.
pub const SESSION_RETRIES: u32 = 6;

/// How long to wait before that, in milliseconds.
pub const SESSION_RETRY_MS: u64 = 500;

/// What to do next.
#[derive(Clone, Copy, Debug, PartialEq, Eq, Structural)]
pub enum QueueStep {
    /// Append the item at this place.
    Append { index: usize },
    /// Wait a moment and append the item at this place again.
    Retry { index: usize },
    /// Nothing plays: play the first item, or the context it comes from.
    Start,
    /// Everything is done.
    Finish,
    /// Nothing was done, so that the failure stands for itself.
    Fail,
    /// The item at this place failed after others were done.
    FailPartly { index: usize },
}

/// A run that adds items to the queue.
#[derive(Debug)]
pub struct QueueRun {
    items: Vec<MediaItem>,
    position: usize,
    attempts: u32,
    started: bool,
    plays_context: bool,
    retries: u32,
}

/// A run as plain values: its items, how many are done, how often the next one
/// was tried again, whether the first one was played, and how it is to go.
pub struct RunModel {
    pub items: Seq<MediaItemModel>,
    pub position: int,
    pub attempts: int,
    pub started: bool,
    pub plays_context: bool,
    pub retries: int,
}

impl View for QueueRun {
    type V = RunModel;

    closed spec fn view(&self) -> RunModel {
        RunModel {
            items: seq_view(self.items@),
            position: self.position as int,
            attempts: self.attempts as int,
            started: self.started,
            plays_context: self.plays_context,
            retries: self.retries as int,
        }
    }
}

impl RunModel {
    /// What holds of every run.
    pub open spec fn valid(self) -> bool {
        &&& 0 <= self.position <= self.items.len() <= usize::MAX
        &&& 0 <= self.attempts <= self.retries
        &&& self.started ==> self.position >= 1
        &&& !self.started ==> self.attempts == 0
    }

    /// What was appended: what is done, but for a first item that was played.
    pub open spec fn applied(self) -> Seq<MediaItemModel> {
        if self.started && self.plays_context {
            Seq::empty()
        } else if self.started {
            self.items.subrange(1, self.position)
        } else {
            self.items.subrange(0, self.position)
        }
    }

    /// How many actions took effect: the appends, and a first item that was
    /// played.
    pub open spec fn succeeded(self) -> int {
        self.applied().len() + if self.started {
            1int
        } else {
            0
        }
    }

    /// The step that a run goes on with when it has nothing to react to.
    pub open spec fn forward(self) -> QueueStep {
        if self.position < self.items.len() {
            QueueStep::Append { index: self.position as usize }
        } else {
            QueueStep::Finish
        }
    }

    /// The run after the next item was appended.
    pub open spec fn advanced(self) -> RunModel {
        RunModel { position: self.position + 1, attempts: 0, ..self }
    }

    /// The run after an append found nothing that plays.
    pub open spec fn after_no_device(self) -> RunModel {
        if self.position > 0 && self.started && self.attempts < self.retries {
            RunModel { attempts: self.attempts + 1, ..self }
        } else {
            self
        }
    }

    /// What to do when an append found nothing that plays: start with the
    /// first item, give a new session some time, or give up.
    pub open spec fn step_without_device(self) -> QueueStep {
        if self.position == 0 {
            QueueStep::Start
        } else if self.started && self.attempts < self.retries {
            QueueStep::Retry { index: self.position as usize }
        } else {
            QueueStep::FailPartly { index: self.position as usize }
        }
    }

    /// What to do when an append failed.
    pub open spec fn step_after_error(self) -> QueueStep {
        if self.position == 0 {
            QueueStep::Fail
        } else {
            QueueStep::FailPartly { index: self.position as usize }
        }
    }

    /// The run after the first item, or its context, was started.
    pub open spec fn begun(self) -> RunModel {
        RunModel {
            started: true,
            attempts: 0,
            position: if self.plays_context {
                self.items.len() as int
            } else {
                1
            },
            ..self
        }
    }
}

impl QueueRun {
    /// What holds of every run.
    pub open spec fn wf(&self) -> bool {
        self@.valid()
    }

    /// A run over these items. Where it starts a session, `plays_context` says
    /// whether that plays the context of all of them, and `retries` how often
    /// an append is tried again afterwards.
    pub fn new(items: Vec<MediaItem>, plays_context: bool, retries: u32) -> (r: Self)
        ensures
            r@ == (RunModel {
                items: seq_view(items@),
                position: 0,
                attempts: 0,
                started: false,
                plays_context,
                retries: retries as int,
            }),
            r.wf(),
    {
        assert(items.len() <= usize::MAX);
        QueueRun { items, position: 0, attempts: 0, started: false, plays_context, retries }
    }

    fn forward(&self) -> (r: QueueStep)
        ensures
            r == self@.forward(),
    {
        if self.position < self.items.len() {
            QueueStep::Append { index: self.position }
        } else {
            QueueStep::Finish
        }
    }

    /// The first step.
    pub fn first_step(&self) -> (r: QueueStep)
        ensures
            r == self@.forward(),
    {
        self.forward()
    }

    /// The step after the next item was appended.
    pub fn on_queued(&mut self) -> (r: QueueStep)
        requires
            old(self).wf(),
            old(self)@.position < old(self)@.items.len(),
        ensures
            final(self).wf(),
            final(self)@ == old(self)@.advanced(),
            r == old(self)@.advanced().forward(),
    {
        assert(self.items.len() <= usize::MAX);
        self.position = self.position + 1;
        self.attempts = 0;
        self.forward()
    }

    /// The step after an append found nothing that plays.
    pub fn on_no_active_device(&mut self) -> (r: QueueStep)
        requires
            old(self).wf(),
            old(self)@.position < old(self)@.items.len(),
        ensures
            final(self).wf(),
            final(self)@ == old(self)@.after_no_device(),
            r == old(self)@.step_without_device(),
    {
        if self.position == 0 {
            return QueueStep::Start;
        }
        if self.started && self.attempts < self.retries {
            self.attempts = self.attempts + 1;
            QueueStep::Retry { index: self.position }
        } else {
            QueueStep::FailPartly { index: self.position }
        }
    }

    /// The step after an append failed.
    pub fn on_error(&self) -> (r: QueueStep)
        requires
            self.wf(),
            self@.position < self@.items.len(),
        ensures
            r == self@.step_after_error(),
    {
        if self.position == 0 {
            QueueStep::Fail
        } else {
            QueueStep::FailPartly { index: self.position }
        }
    }

    /// The step after the first item, or its context, was started.
    pub fn on_started(&mut self) -> (r: QueueStep)
        requires
            old(self).wf(),
            old(self)@.position == 0,
            old(self)@.items.len() > 0,
        ensures
            final(self).wf(),
            final(self)@ == old(self)@.begun(),
            r == old(self)@.begun().forward(),
    {
        self.started = true;
        self.attempts = 0;
        if self.plays_context {
            self.position = self.items.len();
        } else {
            self.position = 1;
        }
        self.forward()
    }

    /// What to start: the context where the run plays one, else the first
    /// item.
    pub fn start_uri(&self, selection: &str) -> (r: String)
        requires
            self@.items.len() > 0,
        ensures
            r@ == if self@.plays_context {
                selection@
            } else {
                self@.items[0].uri
            },
    {
        if self.plays_context {
            selection.to_owned()
        } else {
            assert(self@.items[0] == self.items@[0]@);
            self.items[0].uri.clone()
        }
    }

    /// The URI of the item at a place.
    pub fn uri_at(&self, index: usize) -> (r: String)
        requires
            index < self@.items.len(),
        ensures
            r@ == self@.items[index as int].uri,
    {
        assert(self@.items[index as int] == self.items@[index as int]@);
        self.items[index].uri.clone()
    }

    /// The item that was played to start the session, if one was.
    pub fn started_item(&self) -> (r: Option<MediaItem>)
        requires
            self.wf(),
        ensures
            opt_view(r) == if self@.started {
                Some(self@.items[0])
            } else {
                None
            },
    {
        if self.started {
            assert(self@.items[0] == self.items@[0]@);
            Some(self.items[0].clone())
        } else {
            None
        }
    }

    /// What was appended.
    pub fn applied_items(&self) -> (r: Vec<MediaItem>)
        requires
            self.wf(),
        ensures
            seq_view(r@) == self@.applied(),
    {
        let mut out: Vec<MediaItem> = Vec::new();
        if self.started && self.plays_context {
            assert(seq_view(out@) =~= Seq::<MediaItemModel>::empty());
            return out;
        }
        let from: usize = if self.started {
            1
        } else {
            0
        };
        let mut i: usize = from;
        while i < self.position
            invariant
                from <= i <= self.position,
                self.position <= self.items@.len(),
                self@.items == seq_view(self.items@),
                seq_view(out@) =~= self@.items.subrange(from as int, i as int),
            decreases self.position - i,
        {
            out.push(self.items[i].clone());
            i = i + 1;
        }
        out
    }
}

// ---------------------------------------------------------------------------
// What is said
// ---------------------------------------------------------------------------

/// The note on what was queued already.
pub open spec fn skip_note(skipped: nat) -> Seq<char> {
    if skipped > 0 {
        ", skipped "@ + decimal(skipped) + " already queued"@
    } else {
        ""@
    }
}

fn skip_text(skipped: usize) -> (r: String)
    ensures
        r@ == skip_note(skipped as nat),
{
    if skipped > 0 {
        let n = u64_text(skipped as u64);
        concat3(", skipped ", n.as_str(), " already queued")
    } else {
        "".to_owned()
    }
}

/// What is said where everything was queued already.
pub fn already_queued_message(skipped: usize) -> (r: String)
    ensures
        r@ == "already queued, skipped "@ + decimal(skipped as nat) + " item(s)"@,
{
    let n = u64_text(skipped as u64);
    concat3("already queued, skipped ", n.as_str(), " item(s)")
}

/// What is said where a batch leaves nothing to do.
pub fn nothing_to_queue_message(skipped: usize, empty_message: &str) -> (r: String)
    ensures
        r@ == if skipped > 0 {
            "already queued, skipped "@ + decimal(skipped as nat) + " item(s)"@
        } else {
            empty_message@
        },
{
    if skipped > 0 {
        already_queued_message(skipped)
    } else {
        empty_message.to_owned()
    }
}

/// A count of items with words around it, and the note on what was skipped.
pub open spec fn counted(before: Seq<char>, n: nat, after: Seq<char>, skipped: nat) -> Seq<char> {
    before + decimal(n) + after + skip_note(skipped)
}

fn counted_text(before: &str, n: usize, after: &str, skipped: usize) -> (r: String)
    ensures
        r@ == counted(before@, n as nat, after@, skipped as nat),
{
    let count = u64_text(n as u64);
    let note = skip_text(skipped);
    concat4(before, count.as_str(), after, note.as_str())
}

/// What is said after a selection was added. `context` names the kind of
/// context that was started, if one was.
pub open spec fn selection_added(
    started: bool,
    context: Option<Seq<char>>,
    queued: nat,
    skipped: nat,
) -> Seq<char> {
    if started && queued == 0 {
        match context {
            Some(label) => "playing "@ + label + " now"@,
            None => "playing now"@,
        }
    } else if started {
        counted("playing now, queued "@, queued, " item(s)"@, skipped)
    } else {
        counted("queued "@, queued, " item(s)"@, skipped)
    }
}

/// What is said after a selection was added.
pub fn selection_added_message(
    started: bool,
    context: Option<&str>,
    queued: usize,
    skipped: usize,
) -> (r: String)
    ensures
        r@ == selection_added(started, opt_str(context), queued as nat, skipped as nat),
{
    if started && queued == 0 {
        match context {
            Some(label) => concat3("playing ", label, " now"),
            None => "playing now".to_owned(),
        }
    } else if started {
        counted_text("playing now, queued ", queued, " item(s)", skipped)
    } else {
        counted_text("queued ", queued, " item(s)", skipped)
    }
}

/// What is said after a batch was added.
pub fn batch_added_message(started: bool, queued: usize, skipped: usize) -> (r: String)
    ensures
        r@ == if started {
            counted("playing now, queued "@, queued as nat, " item(s)"@, skipped as nat)
        } else {
            counted("queued "@, queued as nat, " item(s)"@, skipped as nat)
        },
{
    if started {
        counted_text("playing now, queued ", queued, " item(s)", skipped)
    } else {
        counted_text("queued ", queued, " item(s)", skipped)
    }
}

/// What is said after a radio station was added.
pub fn radio_added_message(started: bool, queued: usize, skipped: usize) -> (r: String)
    ensures
        r@ == if started {
            counted("playing radio now, queued "@, queued as nat, " item(s)"@, skipped as nat)
        } else {
            counted("queued "@, queued as nat, " radio item(s)"@, skipped as nat)
        },
{
    if started {
        counted_text("playing radio now, queued ", queued, " item(s)", skipped)
    } else {
        counted_text("queued ", queued, " radio item(s)", skipped)
    }
}

/// What is said of the item that a run failed on; `what` is the kind of run.
pub fn append_failure_message(what: &str, uri: &str) -> (r: String)
    ensures
        r@ == what@ + "queue add for "@ + uri@ + " failed"@,
{
    concat4(what, "queue add for ", uri, " failed")
}

/// What is said of a run that was done in part.
pub open spec fn partly_applied(succeeded: nat, failure: Seq<char>) -> Seq<char> {
    "queue partially applied ("@ + decimal(succeeded) + " action(s) succeeded): "@ + failure
        + "; inspect the queue before retrying"@
}

/// What is said of a run that was done in part.
pub fn partial_application_message(succeeded: usize, failure: &str) -> (r: String)
    ensures
        r@ == partly_applied(succeeded as nat, failure@),
{
    let n = u64_text(succeeded as u64);
    concat5(
        "queue partially applied (",
        n.as_str(),
        " action(s) succeeded): ",
        failure,
        "; inspect the queue before retrying",
    )
}

/// Whether a session may be started here: only where the provider plays
/// through the embedded player.
pub fn start_embedded_queue_session(uses_embedded_transport: bool) -> (r: Result<(), Failure>)
    ensures
        match r {
            Ok(_) => uses_embedded_transport,
            Err(error) => !uses_embedded_transport && error@ == FailureModel::Provider(
                ProviderErrorModel::NoActiveDevice,
            ),
        },
{
    if uses_embedded_transport {
        Ok(())
    } else {
        Err(Failure::Provider(ProviderError::NoActiveDevice))
    }
}

/// Whether an attempt put a reminder's item into the queue; finding nothing
/// that plays does not count.
pub fn require_queued_reminder_item(attempt: QueueAttempt) -> (r: Result<(), Failure>)
    ensures
        match r {
            Ok(_) => attempt is Queued,
            Err(error) => attempt is NoActiveDevice && error@ == FailureModel::Provider(
                ProviderErrorModel::NoActiveDevice,
            ),
        },
{
    match attempt {
        QueueAttempt::Queued => Ok(()),
        QueueAttempt::NoActiveDevice => Err(Failure::Provider(ProviderError::NoActiveDevice)),
    }
}

// ---------------------------------------------------------------------------
// Laws
// ---------------------------------------------------------------------------

/// What is added is new to the queue, holds nothing twice, and leaves out
/// nothing that was not queued or repeated.
pub proof fn added_items_are_new(items: Seq<MediaItemModel>, queued: Seq<Seq<char>>)
    ensures
        no_uri_twice(unqueued(items, queued)),
        forall|i: int|
            0 <= i < unqueued(items, queued).len() ==> !queued.contains(
                (#[trigger] unqueued(items, queued)[i]).uri,
            ) && items.contains(unqueued(items, queued)[i]),
        forall|i: int|
            0 <= i < items.len() ==> queued.contains((#[trigger] items[i]).uri) || item_uris(
                unqueued(items, queued),
            ).contains(items[i].uri),
        unqueued(items, queued).len() <= items.len(),
    decreases items.len(),
{
    if items.len() > 0 {
        let init = items.drop_last();
        let last = items.last();
        let kept = unqueued(init, queued);
        let all = unqueued(items, queued);
        added_items_are_new(init, queued);
        assert forall|i: int| 0 <= i < all.len() implies !queued.contains(
            (#[trigger] all[i]).uri,
        ) && items.contains(all[i]) by {
            if i < kept.len() {
                assert(all[i] == kept[i]);
                let k = choose|k: int| 0 <= k < init.len() && init[k] == kept[i];
                assert(items[k] == all[i]);
            } else {
                assert(items[items.len() - 1] == all[i]);
            }
        }
        assert forall|i: int, j: int| 0 <= i < j < all.len() implies all[i].uri != all[j].uri by {
            assert(all[i] == kept[i]);
            if j < kept.len() {
                assert(all[j] == kept[j]);
            } else {
                assert(item_uris(kept)[i] == all[i].uri);
            }
        }
        assert forall|i: int| 0 <= i < items.len() implies queued.contains(
            (#[trigger] items[i]).uri,
        ) || item_uris(all).contains(items[i].uri) by {
            if i < init.len() {
                assert(init[i] == items[i]);
                if !queued.contains(items[i].uri) {
                    let u = items[i].uri;
                    assert(item_uris(kept).contains(u));
                    let k = choose|k: int| 0 <= k < item_uris(kept).len() && item_uris(kept)[k]
                        == u;
                    assert(item_uris(all)[k] == u);
                }
            } else if !queued.contains(last.uri) {
                if item_uris(kept).contains(last.uri) {
                    let u = last.uri;
                    let k = choose|k: int| 0 <= k < item_uris(kept).len() && item_uris(kept)[k]
                        == u;
                    assert(item_uris(all)[k] == u);
                } else {
                    assert(item_uris(all)[kept.len() as int] == last.uri);
                }
            }
        }
    }
}

/// Items without repetitions are all kept where nothing is queued.
pub proof fn unknown_queue_keeps_everything(items: Seq<MediaItemModel>)
    requires
        no_uri_twice(items),
    ensures
        unqueued(items, Seq::empty()) == items,
    decreases items.len(),
{
    if items.len() > 0 {
        let init = items.drop_last();
        assert(no_uri_twice(init)) by {
            assert forall|i: int, j: int| 0 <= i < j < init.len() implies init[i].uri
                != init[j].uri by {
                assert(init[i] == items[i] && init[j] == items[j]);
            }
        }
        unknown_queue_keeps_everything(init);
        assert(!item_uris(init).contains(items.last().uri)) by {
            if item_uris(init).contains(items.last().uri) {
                let k = choose|k: int| 0 <= k < item_uris(init).len() && item_uris(init)[k]
                    == items.last().uri;
                assert(items[k].uri != items[items.len() - 1].uri);
            }
        }
        assert(unqueued(items, Seq::empty()) =~= items);
    } else {
        assert(unqueued(items, Seq::empty()) =~= items);
    }
}

/// Adding the same items again adds nothing.
pub proof fn adding_twice_adds_nothing(items: Seq<MediaItemModel>, queued: Seq<Seq<char>>)
    ensures
        unqueued(items, queued + item_uris(unqueued(items, queued))) == Seq::<
            MediaItemModel,
        >::empty(),
{
    added_items_are_new(items, queued);
    let new = item_uris(unqueued(items, queued));
    let seen = queued + new;
    assert forall|i: int| 0 <= i < items.len() implies seen.contains((#[trigger] items[i]).uri) by {
        let u = items[i].uri;
        if queued.contains(u) {
            let k = choose|k: int| 0 <= k < queued.len() && queued[k] == u;
            assert(seen[k] == u);
        } else {
            let k = choose|k: int| 0 <= k < new.len() && new[k] == u;
            assert(seen[queued.len() + k] == u);
        }
    }
    lemma_all_seen(items, seen);
}

proof fn lemma_all_seen(items: Seq<MediaItemModel>, seen: Seq<Seq<char>>)
    requires
        forall|i: int| 0 <= i < items.len() ==> seen.contains((#[trigger] items[i]).uri),
    ensures
        unqueued(items, seen) == Seq::<MediaItemModel>::empty(),
    decreases items.len(),
{
    if items.len() > 0 {
        let init = items.drop_last();
        assert forall|i: int| 0 <= i < init.len() implies seen.contains((#[trigger] init[i]).uri) by {
            assert(init[i] == items[i]);
        }
        lemma_all_seen(init, seen);
        assert(seen.contains(items[items.len() - 1].uri));
    }
}

/// A batch is accepted exactly when all its URIs are canonical and of one
/// scheme.
pub proof fn accepted_batches_share_a_scheme(uris: Seq<Seq<char>>)
    ensures
        batch_scheme(uris) matches Ok(scheme) ==> {
            &&& scheme is None <==> uris.len() == 0
            &&& forall|i: int|
                0 <= i < uris.len() ==> parsed_uri(#[trigger] uris[i]) is Ok && parsed_uri(
                    uris[i],
                )->Ok_0.scheme == scheme->0
        },
        batch_scheme(uris) is Err ==> exists|i: int|
            0 <= i < uris.len() && (parsed_uri(#[trigger] uris[i]) is Err || parsed_uri(
                uris[i],
            )->Ok_0.scheme != parsed_uri(uris[0])->Ok_0.scheme),
    decreases uris.len(),
{
    if uris.len() > 0 {
        let init = uris.drop_last();
        accepted_batches_share_a_scheme(init);
        if batch_scheme(uris) is Ok {
            let scheme = batch_scheme(uris)->Ok_0;
            assert forall|i: int| 0 <= i < uris.len() implies parsed_uri(#[trigger] uris[i]) is Ok
                && parsed_uri(uris[i])->Ok_0.scheme == scheme->0 by {
                if i < init.len() {
                    assert(init[i] == uris[i]);
                }
            }
        } else if batch_scheme(init) is Err {
            let k = choose|k: int|
                0 <= k < init.len() && (parsed_uri(#[trigger] init[k]) is Err || parsed_uri(
                    init[k],
                )->Ok_0.scheme != parsed_uri(init[0])->Ok_0.scheme);
            assert(uris[k] == init[k]);
            assert(uris[0] == init[0]);
        } else {
            let last = uris[uris.len() - 1];
            if parsed_uri(last) is Ok {
                assert(init.len() > 0);
                assert(parsed_uri(init[0]) is Ok);
                assert(uris[0] == init[0]);
            }
        }
    }
}

/// Every step of a run keeps what was appended before it, in order: an append
/// adds its item, and nothing else changes what was appended.
pub proof fn runs_only_append(run: RunModel)
    requires
        run.valid(),
        run.position < run.items.len(),
        !(run.started && run.plays_context),
    ensures
        run.advanced().valid(),
        run.advanced().applied() == run.applied().push(run.items[run.position]),
        run.after_no_device().valid(),
        run.after_no_device().applied() == run.applied(),
        run.position == 0 ==> run.begun().valid() && run.begun().applied() == Seq::<
            MediaItemModel,
        >::empty() && run.begun().succeeded() == 1,
{
    assert(run.advanced().applied() =~= run.applied().push(run.items[run.position]));
    assert(run.position == 0 ==> run.begun().applied() =~= Seq::<MediaItemModel>::empty());
}

/// A run that finishes has appended every item, but for a first one that was
/// played, unless it plays the context of all of them.
pub proof fn finished_runs_are_complete(run: RunModel)
    requires
        run.valid(),
        run.forward() == QueueStep::Finish,
        !(run.started && run.plays_context),
    ensures
        run.applied() == if run.started {
            run.items.skip(1)
        } else {
            run.items
        },
        run.succeeded() == run.items.len(),
{
    assert(run.applied() =~= if run.started {
        run.items.skip(1)
    } else {
        run.items
    });
}

/// A run ends: each reaction to an append moves it on, uses up one of its
/// retries, starts it, or gives up.
pub proof fn runs_make_progress(run: RunModel)
    requires
        run.valid(),
        run.position < run.items.len(),
    ensures
        run.advanced().position == run.position + 1,
        run.step_without_device() is Retry ==> run.after_no_device().attempts == run.attempts + 1
            && run.attempts < run.retries,
        run.step_without_device() is Start ==> run.begun().position > run.position,
        !(run.step_without_device() is Retry) && !(run.step_without_device() is Start)
            ==> run.step_without_device() is FailPartly,
        run.retries == 0 && run.position > 0 ==> run.step_without_device() is FailPartly,
{
}

/// Where the kept items stood: at rising places, each at the first place of its
/// URI. And an item at the first place of its URI is kept, unless its URI is
/// queued already.
pub proof fn kept_items_stand_in_order(items: Seq<MediaItemModel>, queued: Seq<Seq<char>>) -> (at:
    Seq<int>)
    ensures
        at.len() == unqueued(items, queued).len(),
        forall|i: int|
            0 <= i < at.len() ==> 0 <= #[trigger] at[i] < items.len() && unqueued(items, queued)[i]
                == items[at[i]],
        forall|i: int, j: int| 0 <= i < j < at.len() ==> at[i] < at[j],
        forall|i: int, k: int|
            0 <= i < at.len() && 0 <= k < at[i] ==> #[trigger] items[k].uri != (
            #[trigger] unqueued(items, queued)[i]).uri,
        forall|k: int|
            0 <= k < items.len() && !queued.contains(items[k].uri) && (forall|j: int|
                0 <= j < k ==> (#[trigger] items[j]).uri != items[k].uri) ==> unqueued(
                items,
                queued,
            ).contains(#[trigger] items[k]),
    decreases items.len(),
{
    if items.len() == 0 {
        Seq::empty()
    } else {
        let init = items.drop_last();
        let last = items.last();
        let kept = unqueued(init, queued);
        let all = unqueued(items, queued);
        let before = kept_items_stand_in_order(init, queued);
        added_items_are_new(init, queued);
        let at = if all.len() > kept.len() {
            before.push(items.len() - 1)
        } else {
            before
        };
        let added = !(queued.contains(last.uri) || item_uris(kept).contains(last.uri));
        assert(added ==> all == kept.push(last));
        assert(!added ==> all == kept);
        assert forall|i: int| 0 <= i < at.len() implies 0 <= #[trigger] at[i] < items.len()
            && all[i] == items[at[i]] by {
            if i < before.len() {
                assert(at[i] == before[i]);
                assert(init[before[i]] == items[before[i]]);
            }
        }
        assert forall|i: int, k: int| 0 <= i < at.len() && 0 <= k < at[i] implies
            #[trigger] items[k].uri != (#[trigger] all[i]).uri by {
            if i < before.len() {
                assert(all[i] == kept[i]);
                assert(init[k] == items[k]);
                assert(init[k].uri != kept[i].uri);
            } else {
                assert(init[k] == items[k]);
                assert(all[i] == last);
                if items[k].uri == last.uri {
                    assert(queued.contains(init[k].uri) || item_uris(kept).contains(init[k].uri));
                }
            }
        }
        assert forall|k: int|
            0 <= k < items.len() && !queued.contains(items[k].uri) && (forall|j: int|
                0 <= j < k ==> (#[trigger] items[j]).uri != items[k].uri) implies all.contains(
            #[trigger] items[k],
        ) by {
            if k < init.len() {
                assert(init[k] == items[k]);
                assert forall|j: int| 0 <= j < k implies (#[trigger] init[j]).uri
                    != init[k].uri by {
                    assert(init[j] == items[j]);
                }
                assert(kept.contains(init[k]));
                let m = choose|m: int| 0 <= m < kept.len() && kept[m] == init[k];
                assert(all[m] == items[k]);
            } else {
                if item_uris(kept).contains(last.uri) {
                    let m = choose|m: int| 0 <= m < item_uris(kept).len() && item_uris(kept)[m]
                        == last.uri;
                    assert(kept[m] == init[before[m]]);
                    assert(items[before[m]].uri == last.uri);
                    assert(false);
                }
                assert(all[kept.len() as int] == last);
            }
        }
        at
    }
}

/// A batch that is refused is refused for its first URI that does not parse or
/// does not share the scheme of the ones before it, and that is told.
pub proof fn the_first_bad_uri_is_told(uris: Seq<Seq<char>>, n: int, scheme: Seq<char>)
    requires
        0 <= n < uris.len(),
        forall|i: int|
            0 <= i < n ==> parsed_uri(#[trigger] uris[i]) is Ok && parsed_uri(uris[i])->Ok_0.scheme
                == scheme,
        parsed_uri(uris[n]) is Err || n > 0 && parsed_uri(uris[n])->Ok_0.scheme != scheme,
    ensures
        match parsed_uri(uris[n]) {
            Err(error) => batch_scheme(uris) == Err::<Option<Seq<char>>, FailureModel>(
                FailureModel::Uri(error),
            ),
            Ok(uri) => batch_scheme(uris) == Err::<Option<Seq<char>>, FailureModel>(
                FailureModel::Provider(
                    ProviderErrorModel::InvalidInput {
                        field: "uris"@,
                        message: "queue batch mixes provider schemes `"@ + scheme + "` and `"@
                            + uri.scheme + "`"@,
                    },
                ),
            ),
        },
    decreases uris.len(),
{
    let init = uris.drop_last();
    assert forall|i: int| 0 <= i < n implies parsed_uri(#[trigger] init[i]) is Ok && parsed_uri(
        init[i],
    )->Ok_0.scheme == scheme by {
        assert(init[i] == uris[i]);
    }
    if n < uris.len() - 1 {
        assert(init[n] == uris[n]);
        the_first_bad_uri_is_told(init, n, scheme);
    } else {
        shared_schemes_are_accepted(init, scheme);
    }
}

/// A batch whose URIs all parse to one scheme goes to that scheme; an empty
/// one to none.
pub proof fn shared_schemes_are_accepted(uris: Seq<Seq<char>>, scheme: Seq<char>)
    requires
        forall|i: int|
            0 <= i < uris.len() ==> parsed_uri(#[trigger] uris[i]) is Ok && parsed_uri(
                uris[i],
            )->Ok_0.scheme == scheme,
    ensures
        uris.len() > 0 ==> batch_scheme(uris) == Ok::<Option<Seq<char>>, FailureModel>(
            Some(scheme),
        ),
        uris.len() == 0 ==> batch_scheme(uris) == Ok::<Option<Seq<char>>, FailureModel>(None),
    decreases uris.len(),
{
    if uris.len() > 0 {
        let init = uris.drop_last();
        assert forall|i: int| 0 <= i < init.len() implies parsed_uri(#[trigger] init[i]) is Ok
            && parsed_uri(init[i])->Ok_0.scheme == scheme by {
            assert(init[i] == uris[i]);
        }
        shared_schemes_are_accepted(init, scheme);
        assert(uris.last() == uris[uris.len() - 1]);
    }
}

/// New items are held against the queue exactly when it can be read and its
/// session is active: then against all that it holds, in order.
pub proof fn only_live_queues_veto(supported: bool, queue: QueueModel, i: int)
    requires
        0 <= i < queue.items.len(),
    ensures
        vetoing_uris(supported, None).len() == 0,
        supported && queue.session_active ==> vetoing_uris(supported, Some(queue)).len()
            == queue.items.len() && vetoing_uris(supported, Some(queue))[i] == queue.items[i].uri,
        !supported || !queue.session_active ==> vetoing_uris(supported, Some(queue)).len() == 0,
{
}

/// An append that finds nothing that plays starts a session with the first
/// item; later it is tried again while the session that this run started is
/// new, and otherwise the run ends in part at that item. A trial more changes
/// nothing but the number of trials.
pub proof fn missing_devices_are_met(run: RunModel)
    requires
        run.valid(),
        run.position < run.items.len(),
    ensures
        run.step_without_device() is Start <==> run.position == 0,
        run.step_without_device() is Retry <==> run.position > 0 && run.started && run.attempts
            < run.retries,
        run.step_without_device() is FailPartly <==> run.position > 0 && !(run.started
            && run.attempts < run.retries),
        run.step_without_device() is Retry ==> run.step_without_device()->Retry_index
            == run.position && run.after_no_device() == (RunModel {
            attempts: run.attempts + 1,
            ..run
        }),
        run.step_without_device() is FailPartly ==> run.step_without_device()->FailPartly_index
            == run.position,
        !(run.step_without_device() is Retry) ==> run.after_no_device() == run,
{
}

/// An append that fails ends the run: as a whole where nothing was done yet,
/// in part at its item otherwise.
pub proof fn failures_end_the_run(run: RunModel)
    requires
        run.valid(),
        run.position < run.items.len(),
    ensures
        run.step_after_error() is Fail <==> run.position == 0,
        run.position > 0 ==> run.step_after_error() is FailPartly
            && run.step_after_error()->FailPartly_index == run.position,
{
}

/// A run goes on with the first item that is not done, and finishes when all
/// are. An append counts one item more and its trials anew; a start counts the
/// first item, or all of them where their context plays.
pub proof fn runs_go_on_item_by_item(run: RunModel)
    requires
        run.valid(),
    ensures
        run.position < run.items.len() ==> run.forward() is Append && run.forward()->Append_index
            == run.position,
        run.position == run.items.len() ==> run.forward() is Finish,
        run.advanced() == (RunModel { position: run.position + 1, attempts: 0, ..run }),
        run.begun().started && run.begun().attempts == 0 && run.begun().items == run.items,
        run.begun().plays_context == run.plays_context && run.begun().retries == run.retries,
        run.plays_context ==> run.begun().position == run.items.len(),
        !run.plays_context ==> run.begun().position == 1,
{
}

/// Skipped items are told where there are any, and only then; what was started
/// is told before what was queued.
pub proof fn additions_are_told(
    started: bool,
    context: Option<Seq<char>>,
    queued: nat,
    skipped: nat,
)
    ensures
        ({
            let told = selection_added(started, context, queued, skipped);
            let note = if skipped == 0 {
                ""@
            } else {
                ", skipped "@ + decimal(skipped) + " already queued"@
            };
            &&& started && queued == 0 && context is Some ==> told == "playing "@ + context->0
                + " now"@
            &&& started && queued == 0 && context is None ==> told == "playing now"@
            &&& started && queued > 0 ==> told == "playing now, queued "@ + decimal(queued)
                + " item(s)"@ + note
            &&& !started ==> told == "queued "@ + decimal(queued) + " item(s)"@ + note
        }),
{
}

/// A run that was done in part tells how much of it was, and what failed.
pub proof fn partial_runs_are_told(succeeded: nat, failure: Seq<char>, skipped: nat)
    ensures
        partly_applied(succeeded, failure) == "queue partially applied ("@ + decimal(succeeded)
            + " action(s) succeeded): "@ + failure + "; inspect the queue before retrying"@,
        skipped == 0 ==> skip_note(skipped).len() == 0,
        skipped > 0 ==> skip_note(skipped) == ", skipped "@ + decimal(skipped)
            + " already queued"@,
{
    reveal_strlit("");
}

/// What goes into a queue, and each step of a run, is what is told of it.
pub proof fn queue_calls_answer_as_told()
    ensures
        forall|items: Vec<MediaItem>, already_queued: &[String], answer: (Vec<MediaItem>, usize)|
            #[trigger] call_ensures(dedup_queue_items, (items, already_queued), answer) ==> {
                &&& seq_view(answer.0@) == unqueued(seq_view(items@), texts(already_queued@))
                &&& answer.1 == items@.len() - answer.0@.len()
            },
        forall|queue_read_supported: bool, fetched: &Option<Queue>, answer: Vec<String>|
            #[trigger] call_ensures(
                live_queue_uris,
                (queue_read_supported, fetched),
                answer,
            ) ==> {
                &&& texts(answer@) == vetoing_uris(queue_read_supported, opt_view(*fetched))
            },
        forall|uris: &[String], answer: Result<Option<UriScheme>, Failure>|
            #[trigger] call_ensures(validate_queue_batch_provider, (uris,), answer) ==> {
                &&& batch_view(answer) == batch_scheme(texts(uris@))
            },
        forall|this: &QueueRun, answer: QueueStep|
            #[trigger] call_ensures(QueueRun::first_step, (this,), answer) ==> {
                &&& answer == this@.forward()
            },
        forall|this: &mut QueueRun, answer: QueueStep|
            #[trigger] call_ensures(QueueRun::on_queued, (this,), answer)
                && (mut_ref_current(this).wf()) && (mut_ref_current(this)@.position < mut_ref_current(this)@.items.len()) ==> {
                &&& mut_ref_future(this).wf()
                &&& mut_ref_future(this)@ == mut_ref_current(this)@.advanced()
                &&& answer == mut_ref_current(this)@.advanced().forward()
            },
        forall|this: &mut QueueRun, answer: QueueStep|
            #[trigger] call_ensures(QueueRun::on_no_active_device, (this,), answer)
                && (mut_ref_current(this).wf()) && (mut_ref_current(this)@.position < mut_ref_current(this)@.items.len()) ==> {
                &&& mut_ref_future(this).wf()
                &&& mut_ref_future(this)@ == mut_ref_current(this)@.after_no_device()
                &&& answer == mut_ref_current(this)@.step_without_device()
            },
        forall|this: &QueueRun, answer: QueueStep|
            #[trigger] call_ensures(QueueRun::on_error, (this,), answer)
                && (this.wf()) && (this@.position < this@.items.len()) ==> {
                &&& answer == this@.step_after_error()
            },
        forall|this: &mut QueueRun, answer: QueueStep|
            #[trigger] call_ensures(QueueRun::on_started, (this,), answer)
                && (mut_ref_current(this).wf()) && (mut_ref_current(this)@.position == 0) && (mut_ref_current(this)@.items.len() > 0) ==> {
                &&& mut_ref_future(this).wf()
                &&& mut_ref_future(this)@ == mut_ref_current(this)@.begun()
                &&& answer == mut_ref_current(this)@.begun().forward()
            },
        forall|this: &QueueRun, answer: Vec<MediaItem>|
            #[trigger] call_ensures(QueueRun::applied_items, (this,), answer) && (this.wf()) ==> {
                &&& seq_view(answer@) == this@.applied()
            },
{
}

} // verus!
