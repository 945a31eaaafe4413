//! The batch dispatcher.
//!
//! The dispatcher decides; it does no outside work itself. It hands its
//! driver one action at a time, and the driver hands back the event that
//! the action ended in:
//!
//! | action       | outside work                               | event      |
//! |--------------|--------------------------------------------|------------|
//! | `Enrich`     | probe the video and make its thumbnail     | `Enriched` |
//! | `Send`       | send one request                           | `Sent`     |
//! | `SendGroup`  | send all requests as one album             | `Sent`     |
//! | `Notify`     | send a text that reports a failure         | `Notified` |
//! | `Wait`       | sleep for the given time                   | `Waited`   |
//! | `ReportEmpty`| report that there was nothing to send      | none       |
//! | `Finish`     | none                                       | none       |
//!
//! In sequential mode every file is sent with a call of its own, a pause
//! follows every file, and a send that fails is reported and does not stop
//! the run. In group mode all files go out with one call, which fails or
//! succeeds for all of them.

use crate::kind::MediaKind;
use crate::request::{
    build_request, carries_caption, file_views, request_for, Enrichment, EnrichmentView,
    MediaFile, MediaFileView, Mode, RequestView, SendRequest,
};
use vstd::prelude::*;

verus! {

/// The pause after each file in sequential mode, in milliseconds.
pub const THROTTLE_MILLIS: u64 = 1100;

/// How sending a file ended.
#[derive(Debug)]
pub enum Outcome {
    Sent,
    Failed { reason: String },
}

/// What an outcome is, as plain values.
pub enum OutcomeView {
    Sent,
    Failed { reason: Seq<char> },
}

impl View for Outcome {
    type V = OutcomeView;

    open spec fn view(&self) -> OutcomeView {
        match self {
            Outcome::Sent => OutcomeView::Sent,
            Outcome::Failed { reason } => OutcomeView::Failed { reason: reason@ },
        }
    }
}

/// The outcome of one file of the batch.
#[derive(Debug)]
pub struct ItemOutcome {
    pub path: String,
    pub outcome: Outcome,
}

/// What the outcome of a file is, as plain values.
pub struct ItemOutcomeView {
    pub path: Seq<char>,
    pub outcome: OutcomeView,
}

impl View for ItemOutcome {
    type V = ItemOutcomeView;

    open spec fn view(&self) -> ItemOutcomeView {
        ItemOutcomeView { path: self.path@, outcome: self.outcome@ }
    }
}

/// What the driver is to do next.
#[derive(Debug)]
pub enum Action {
    Enrich { path: String },
    Send { request: SendRequest },
    SendGroup { requests: Vec<SendRequest> },
    Notify { text: String },
    Wait { millis: u64 },
    ReportEmpty,
    Finish,
}

/// What an action is, as plain values.
pub enum ActionView {
    Enrich { path: Seq<char> },
    Send { request: RequestView },
    SendGroup { requests: Seq<RequestView> },
    Notify { text: Seq<char> },
    Wait { millis: u64 },
    ReportEmpty,
    Finish,
}

/// The plain values of a sequence of requests.
pub open spec fn request_views(requests: Seq<SendRequest>) -> Seq<RequestView> {
    Seq::new(requests.len(), |i: int| requests[i]@)
}

/// The plain values of a sequence of outcomes.
pub open spec fn outcome_views(outcomes: Seq<ItemOutcome>) -> Seq<ItemOutcomeView> {
    Seq::new(outcomes.len(), |i: int| outcomes[i]@)
}

impl View for Action {
    type V = ActionView;

    open spec fn view(&self) -> ActionView {
        match self {
            Action::Enrich { path } => ActionView::Enrich { path: path@ },
            Action::Send { request } => ActionView::Send { request: request@ },
            Action::SendGroup { requests } => ActionView::SendGroup {
                requests: request_views(requests@),
            },
            Action::Notify { text } => ActionView::Notify { text: text@ },
            Action::Wait { millis } => ActionView::Wait { millis: *millis },
            Action::ReportEmpty => ActionView::ReportEmpty,
            Action::Finish => ActionView::Finish,
        }
    }
}

/// What an action of the driver ended in.
#[derive(Debug)]
pub enum Event {
    Enriched { enrichment: Enrichment },
    Sent { outcome: Outcome },
    Notified,
    Waited,
}

/// What an event is, as plain values.
pub enum EventView {
    Enriched { enrichment: EnrichmentView },
    Sent { outcome: OutcomeView },
    Notified,
    Waited,
}

impl View for Event {
    type V = EventView;

    open spec fn view(&self) -> EventView {
        match self {
            Event::Enriched { enrichment } => EventView::Enriched { enrichment: enrichment@ },
            Event::Sent { outcome } => EventView::Sent { outcome: outcome@ },
            Event::Notified => EventView::Notified,
            Event::Waited => EventView::Waited,
        }
    }
}

/// Where the dispatcher stands: which event it waits for.
#[derive(Clone, Copy, Debug, PartialEq, Eq, Structural)]
pub enum Stage {
    /// Before the first action.
    Idle,
    /// A video is being enriched.
    Enriching,
    /// One request is being sent.
    Sending,
    /// A failure is being reported.
    Notifying,
    /// The pause after a file.
    Throttling,
    /// The album is being sent.
    SendingGroup,
    /// Nothing is left to do.
    Done,
}

/// The state of a dispatcher, as plain values: the mode, the files of the
/// batch, the index of the file in hand, the stage, the outcomes so far,
/// and the requests gathered for the album.
pub struct DispatcherView {
    pub mode: Mode,
    pub files: Seq<MediaFileView>,
    pub cursor: int,
    pub stage: Stage,
    pub outcomes: Seq<ItemOutcomeView>,
    pub group: Seq<RequestView>,
}

/// The text that reports that `path` could not be sent.
pub open spec fn failure_text(path: Seq<char>, reason: Seq<char>) -> Seq<char> {
    "Failed to send "@ + path + ": "@ + reason
}

/// The text that reports an empty batch.
pub open spec fn empty_batch_text() -> Seq<char> {
    "No valid media found to send."@
}

/// The request for the file in hand.
pub open spec fn item_request(d: DispatcherView, enrichment: Option<EnrichmentView>) -> RequestView {
    let file = d.files[d.cursor];
    request_for(file, carries_caption(d.mode, file.kind, d.cursor), enrichment)
}

/// The outcomes of an album: the outcome of its one call, for every file.
pub open spec fn group_outcomes(files: Seq<MediaFileView>, outcome: OutcomeView) -> Seq<
    ItemOutcomeView,
> {
    Seq::new(files.len(), |i: int| ItemOutcomeView { path: files[i].path, outcome })
}

/// What the dispatcher does when it turns to the file at the cursor. Past
/// the last file the run ends, in group mode with the sending of the
/// album. A video is enriched first. Any other file is sent at once in
/// sequential mode, and joins the album in group mode, where the next file
/// is turned to.
pub open spec fn proceed(d: DispatcherView) -> (DispatcherView, ActionView)
    decreases d.files.len() - d.cursor,
{
    if d.cursor >= d.files.len() {
        match d.mode {
            Mode::Sequential => (DispatcherView { stage: Stage::Done, ..d }, ActionView::Finish),
            Mode::Group => (
                DispatcherView { stage: Stage::SendingGroup, group: Seq::empty(), ..d },
                ActionView::SendGroup { requests: d.group },
            ),
        }
    } else if d.files[d.cursor].kind == MediaKind::Video {
        (
            DispatcherView { stage: Stage::Enriching, ..d },
            ActionView::Enrich { path: d.files[d.cursor].path },
        )
    } else {
        match d.mode {
            Mode::Sequential => (
                DispatcherView { stage: Stage::Sending, ..d },
                ActionView::Send { request: item_request(d, None) },
            ),
            Mode::Group => proceed(
                DispatcherView {
                    cursor: d.cursor + 1,
                    group: d.group.push(item_request(d, None)),
                    ..d
                },
            ),
        }
    }
}

/// The dispatcher for a batch, and its first action. An empty batch is
/// reported, and nothing is sent.
pub open spec fn start_of(mode: Mode, files: Seq<MediaFileView>) -> (DispatcherView, ActionView) {
    let d = DispatcherView {
        mode,
        files,
        cursor: 0,
        stage: Stage::Idle,
        outcomes: Seq::empty(),
        group: Seq::empty(),
    };
    if files.len() == 0 {
        (DispatcherView { stage: Stage::Done, ..d }, ActionView::ReportEmpty)
    } else {
        proceed(d)
    }
}

/// Whether a dispatcher at `stage` waits for `event`.
pub open spec fn accepts(stage: Stage, event: EventView) -> bool {
    match stage {
        Stage::Enriching => event is Enriched,
        Stage::Sending => event is Sent,
        Stage::SendingGroup => event is Sent,
        Stage::Notifying => event is Notified,
        Stage::Throttling => event is Waited,
        Stage::Idle => false,
        Stage::Done => false,
    }
}

/// The state after an event that the dispatcher waits for, and the next
/// action.
pub open spec fn step_of(d: DispatcherView, event: EventView) -> (DispatcherView, ActionView) {
    match event {
        EventView::Enriched { enrichment } => {
            let request = item_request(d, Some(enrichment));
            match d.mode {
                Mode::Sequential => (
                    DispatcherView { stage: Stage::Sending, ..d },
                    ActionView::Send { request },
                ),
                Mode::Group => proceed(
                    DispatcherView { cursor: d.cursor + 1, group: d.group.push(request), ..d },
                ),
            }
        },
        EventView::Sent { outcome } => {
            if d.stage == Stage::SendingGroup {
                (
                    DispatcherView {
                        stage: Stage::Done,
                        outcomes: group_outcomes(d.files, outcome),
                        ..d
                    },
                    ActionView::Finish,
                )
            } else {
                let path = d.files[d.cursor].path;
                let outcomes = d.outcomes.push(ItemOutcomeView { path, outcome });
                match outcome {
                    OutcomeView::Sent => (
                        DispatcherView { stage: Stage::Throttling, outcomes, ..d },
                        ActionView::Wait { millis: THROTTLE_MILLIS },
                    ),
                    OutcomeView::Failed { reason } => (
                        DispatcherView { stage: Stage::Notifying, outcomes, ..d },
                        ActionView::Notify { text: failure_text(path, reason) },
                    ),
                }
            }
        },
        EventView::Notified => (
            DispatcherView { stage: Stage::Throttling, ..d },
            ActionView::Wait { millis: THROTTLE_MILLIS },
        ),
        EventView::Waited => proceed(DispatcherView { cursor: d.cursor + 1, ..d }),
    }
}

/// Whether the requests gathered for an album are those of the first files
/// of the batch, in order, each keeping to its kind, and the first of them
/// alone with a caption.
pub open spec fn group_follows(files: Seq<MediaFileView>, group: Seq<RequestView>) -> bool {
    &&& group.len() <= files.len()
    &&& forall|i: int|
        0 <= i < group.len() ==> {
            &&& (#[trigger] group[i]).path == files[i].path
            &&& group[i].kind == files[i].kind
            &&& group[i].caption == if i == 0 {
                Some(files[i].caption)
            } else {
                None::<Seq<char>>
            }
            &&& group[i].well_formed()
        }
}

/// Whether the outcomes are those of the first files of the batch, in order.
pub open spec fn outcomes_follow(files: Seq<MediaFileView>, outcomes: Seq<ItemOutcomeView>) -> bool {
    &&& outcomes.len() <= files.len()
    &&& forall|i: int| 0 <= i < outcomes.len() ==> (#[trigger] outcomes[i]).path == files[i].path
}

impl DispatcherView {
    /// Whether the state is one that a run can be in.
    pub open spec fn well_formed(self) -> bool {
        let n = self.files.len();
        &&& 0 <= self.cursor <= n
        &&& outcomes_follow(self.files, self.outcomes)
        &&& match self.mode {
            Mode::Sequential => self.group.len() == 0 && match self.stage {
                Stage::Enriching => self.cursor < n && self.files[self.cursor].kind
                    == MediaKind::Video && self.outcomes.len() == self.cursor,
                Stage::Sending => self.cursor < n && self.outcomes.len() == self.cursor,
                Stage::Notifying => self.cursor < n && self.outcomes.len() == self.cursor + 1,
                Stage::Throttling => self.cursor < n && self.outcomes.len() == self.cursor + 1,
                Stage::Done => self.cursor == n && self.outcomes.len() == n,
                Stage::Idle => false,
                Stage::SendingGroup => false,
            },
            Mode::Group => match self.stage {
                Stage::Enriching => self.cursor < n && self.files[self.cursor].kind
                    == MediaKind::Video && self.outcomes.len() == 0 && self.group.len()
                    == self.cursor && group_follows(self.files, self.group),
                Stage::SendingGroup => self.cursor == n && n > 0 && self.outcomes.len() == 0
                    && self.group.len() == 0,
                Stage::Done => self.outcomes.len() == n && self.group.len() == 0,
                Stage::Idle => false,
                Stage::Sending => false,
                Stage::Notifying => false,
                Stage::Throttling => false,
            },
        }
    }

    /// Whether the dispatcher may turn to the file at the cursor: whether
    /// all files before it are dealt with, and none after it.
    pub open spec fn at_file(self) -> bool {
        &&& 0 <= self.cursor <= self.files.len()
        &&& outcomes_follow(self.files, self.outcomes)
        &&& match self.mode {
            Mode::Sequential => self.group.len() == 0 && self.outcomes.len() == self.cursor,
            Mode::Group => self.outcomes.len() == 0 && self.group.len() == self.cursor
                && group_follows(self.files, self.group) && self.files.len() > 0,
        }
    }

    /// Whether the run is over.
    pub open spec fn is_done(self) -> bool {
        self.stage == Stage::Done
    }

    /// The paths of the outcomes, in order.
    pub open spec fn outcome_paths(self) -> Seq<Seq<char>> {
        Seq::new(self.outcomes.len(), |i: int| self.outcomes[i].path)
    }

    /// The paths of the files, in order.
    pub open spec fn file_paths(self) -> Seq<Seq<char>> {
        Seq::new(self.files.len(), |i: int| self.files[i].path)
    }

    /// The number of events that the files from the cursor on can take, at
    /// most: four for each of them, and those of the album's one call.
    pub open spec fn ahead(self) -> int {
        4 * (self.files.len() - self.cursor) + if self.mode == Mode::Group {
            2int
        } else {
            0int
        }
    }

    /// The number of events that a run is away from its end, at most.
    pub open spec fn distance(self) -> int {
        let ahead = self.ahead();
        match self.stage {
            Stage::Idle => ahead + 1,
            Stage::Enriching => ahead,
            Stage::Sending => ahead - 1,
            Stage::Notifying => ahead - 2,
            Stage::Throttling => ahead - 3,
            Stage::SendingGroup => 1,
            Stage::Done => 0,
        }
    }
}

/// Turning to a file leaves the dispatcher in a state that a run can be in;
/// the album that it sends holds one request for every file, in order, and
/// the first of them alone carries a caption.
pub proof fn lemma_proceed_well_formed(d: DispatcherView)
    requires
        d.at_file(),
    ensures
        proceed(d).0.well_formed(),
        proceed(d).0.files == d.files,
        proceed(d).0.mode == d.mode,
        proceed(d).0.distance() <= d.ahead(),
        proceed(d).1 matches ActionView::SendGroup { requests } ==> requests.len()
            == d.files.len() && group_follows(d.files, requests),
        proceed(d).1 is Finish <==> proceed(d).0.stage == Stage::Done,
        !(proceed(d).1 is ReportEmpty),
    decreases d.files.len() - d.cursor,
{
    if d.cursor < d.files.len() && d.files[d.cursor].kind != MediaKind::Video && d.mode
        == Mode::Group {
        let next = DispatcherView {
            cursor: d.cursor + 1,
            group: d.group.push(item_request(d, None)),
            ..d
        };
        lemma_proceed_well_formed(next);
    }
}

/// A run starts in a state that it can be in.
pub proof fn lemma_start_well_formed(mode: Mode, files: Seq<MediaFileView>)
    ensures
        start_of(mode, files).0.well_formed(),
        start_of(mode, files).0.files == files,
        start_of(mode, files).0.mode == mode,
{
    if files.len() > 0 {
        lemma_proceed_well_formed(
            DispatcherView {
                mode,
                files,
                cursor: 0,
                stage: Stage::Idle,
                outcomes: Seq::empty(),
                group: Seq::empty(),
            },
        );
    }
}

/// An event that the dispatcher waits for leaves it in a state that a run
/// can be in, with the same batch, and nearer to the end of the run.
pub proof fn lemma_step_well_formed(d: DispatcherView, event: EventView)
    requires
        d.well_formed(),
        accepts(d.stage, event),
    ensures
        step_of(d, event).0.well_formed(),
        step_of(d, event).0.files == d.files,
        step_of(d, event).0.mode == d.mode,
        step_of(d, event).0.distance() < d.distance(),
        step_of(d, event).1 matches ActionView::SendGroup { requests } ==> requests.len()
            == d.files.len() && group_follows(d.files, requests),
{
    match event {
        EventView::Enriched { enrichment } => {
            if d.mode == Mode::Group {
                lemma_proceed_well_formed(
                    DispatcherView {
                        cursor: d.cursor + 1,
                        group: d.group.push(item_request(d, Some(enrichment))),
                        ..d
                    },
                );
            }
        },
        EventView::Sent { outcome } => {},
        EventView::Notified => {},
        EventView::Waited => {
            lemma_proceed_well_formed(DispatcherView { cursor: d.cursor + 1, ..d });
        },
    }
}

/// The outcomes keep the order of the batch: at the end of a run there is
/// one outcome for every file, and the paths of the outcomes are the paths
/// of the files, in the order in which the files were given.
pub proof fn lemma_outcomes_keep_order(d: DispatcherView)
    requires
        d.well_formed(),
        d.is_done(),
    ensures
        d.outcomes.len() == d.files.len(),
        d.outcome_paths() == d.file_paths(),
{
    assert(d.outcome_paths() =~= d.file_paths());
}

/// A send that fails does not end a sequential run: the failure is reported
/// for the file that it befell, the outcome is recorded, and the run is not
/// over before every file of the batch has an outcome.
pub proof fn lemma_failure_is_isolated(d: DispatcherView, reason: Seq<char>)
    requires
        d.well_formed(),
        d.mode == Mode::Sequential,
        d.stage == Stage::Sending,
    ensures
        ({
            let failed = step_of(d, EventView::Sent { outcome: OutcomeView::Failed { reason } });
            let notified = step_of(failed.0, EventView::Notified);
            let waited = step_of(notified.0, EventView::Waited);
            &&& failed.1 == ActionView::Notify {
                text: failure_text(d.files[d.cursor].path, reason),
            }
            &&& failed.0.outcomes == d.outcomes.push(
                ItemOutcomeView {
                    path: d.files[d.cursor].path,
                    outcome: OutcomeView::Failed { reason },
                },
            )
            &&& notified.1 == ActionView::Wait { millis: THROTTLE_MILLIS }
            &&& waited == proceed(DispatcherView { cursor: d.cursor + 1, ..notified.0 })
            &&& d.cursor + 1 < d.files.len() ==> !waited.0.is_done() && waited.0.cursor
                == d.cursor + 1
            &&& waited.0.is_done() ==> d.cursor + 1 == d.files.len()
        }),
{
    let failed = step_of(d, EventView::Sent { outcome: OutcomeView::Failed { reason } });
    let notified = step_of(failed.0, EventView::Notified);
    lemma_step_well_formed(d, EventView::Sent { outcome: OutcomeView::Failed { reason } });
    lemma_step_well_formed(failed.0, EventView::Notified);
    lemma_step_well_formed(notified.0, EventView::Waited);
}

/// The state that a sequence of events leads to. An event that the
/// dispatcher does not wait for changes nothing.
pub open spec fn run(d: DispatcherView, events: Seq<EventView>) -> DispatcherView
    decreases events.len(),
{
    if events.len() == 0 {
        d
    } else {
        let before = run(d, events.drop_last());
        if accepts(before.stage, events.last()) {
            step_of(before, events.last()).0
        } else {
            before
        }
    }
}

/// Whatever the events of a run are, and however its sends end, the run
/// stays in states that it can be in and keeps its batch: so whenever it is
/// over, every file has an outcome, and the outcomes are in the order of
/// the files.
pub proof fn lemma_run_well_formed(mode: Mode, files: Seq<MediaFileView>, events: Seq<EventView>)
    ensures
        run(start_of(mode, files).0, events).well_formed(),
        run(start_of(mode, files).0, events).files == files,
        run(start_of(mode, files).0, events).mode == mode,
        run(start_of(mode, files).0, events).is_done() ==> run(
            start_of(mode, files).0,
            events,
        ).outcome_paths() == Seq::new(files.len(), |i: int| files[i].path),
    decreases events.len(),
{
    let d = start_of(mode, files).0;
    if events.len() == 0 {
        lemma_start_well_formed(mode, files);
    } else {
        lemma_run_well_formed(mode, files, events.drop_last());
        let before = run(d, events.drop_last());
        if accepts(before.stage, events.last()) {
            lemma_step_well_formed(before, events.last());
        }
    }
    let end = run(d, events);
    if end.is_done() {
        lemma_outcomes_keep_order(end);
        assert(end.file_paths() =~= Seq::new(files.len(), |i: int| files[i].path));
    }
}

/// An empty batch sends nothing: it is reported, the run is over at once,
/// and no event brings it back to life.
pub proof fn lemma_empty_batch_sends_nothing(mode: Mode, events: Seq<EventView>)
    ensures
        start_of(mode, Seq::empty()).1 == ActionView::ReportEmpty,
        run(start_of(mode, Seq::empty()).0, events) == start_of(mode, Seq::empty()).0,
        start_of(mode, Seq::empty()).0.is_done(),
    decreases events.len(),
{
    if events.len() > 0 {
        lemma_empty_batch_sends_nothing(mode, events.drop_last());
    }
}

/// Decides the work of one batch. See the module for how it is driven.
pub struct Dispatcher {
    mode: Mode,
    files: Vec<MediaFile>,
    cursor: usize,
    stage: Stage,
    outcomes: Vec<ItemOutcome>,
    group: Vec<SendRequest>,
}

impl View for Dispatcher {
    type V = DispatcherView;

    closed spec fn view(&self) -> DispatcherView {
        DispatcherView {
            mode: self.mode,
            files: file_views(self.files@),
            cursor: self.cursor as int,
            stage: self.stage,
            outcomes: outcome_views(self.outcomes@),
            group: request_views(self.group@),
        }
    }
}

/// Whether a file carries its caption.
pub fn caption_due(mode: Mode, kind: MediaKind, position: usize) -> (due: bool)
    ensures
        due == carries_caption(mode, kind, position as int),
{
    match mode {
        Mode::Group => position == 0,
        Mode::Sequential => kind == MediaKind::Video,
    }
}

/// The text that reports that `path` could not be sent, for the reason
/// that the messaging client gave.
pub fn failure_message(path: &str, reason: &str) -> (text: String)
    ensures
        text@ == failure_text(path@, reason@),
{
    let mut text = String::from_str("Failed to send ");
    text.append(path);
    text.append(": ");
    text.append(reason);
    text
}

/// The text that reports an empty batch.
pub fn empty_batch_message() -> (text: String)
    ensures
        text@ == empty_batch_text(),
{
    String::from_str("No valid media found to send.")
}

/// A copy of an outcome.
pub fn copy_outcome(outcome: &Outcome) -> (copy: Outcome)
    ensures
        copy@ == outcome@,
{
    match outcome {
        Outcome::Sent => Outcome::Sent,
        Outcome::Failed { reason } => Outcome::Failed { reason: reason.clone() },
    }
}

/// The outcomes of an album: one for every file, each the outcome of the
/// album's call.
pub fn outcomes_of_group(files: &Vec<MediaFile>, outcome: &Outcome) -> (outcomes: Vec<ItemOutcome>)
    ensures
        outcome_views(outcomes@) == group_outcomes(file_views(files@), outcome@),
{
    let mut outcomes: Vec<ItemOutcome> = Vec::new();
    let mut i: usize = 0;
    while i < files.len()
        invariant
            i <= files.len(),
            outcomes.len() == i,
            forall|j: int|
                0 <= j < i ==> (#[trigger] outcomes@[j])@ == (ItemOutcomeView {
                    path: files@[j].path@,
                    outcome: outcome@,
                }),
        decreases files.len() - i,
    {
        outcomes.push(ItemOutcome { path: files[i].path.clone(), outcome: copy_outcome(outcome) });
        i += 1;
    }
    assert(outcome_views(outcomes@) =~= group_outcomes(file_views(files@), outcome@));
    outcomes
}

impl Dispatcher {
    /// Whether the dispatcher is in a state that a run can be in. Every
    /// dispatcher that `start` made and `step` moved is.
    pub open spec fn well_formed(&self) -> bool {
        self@.well_formed()
    }

    /// Makes the dispatcher for a batch and says what to do first. An empty
    /// batch is reported, and nothing is sent.
    pub fn start(mode: Mode, files: Vec<MediaFile>) -> (r: (Dispatcher, Action))
        ensures
            (r.0@, r.1@) == start_of(mode, file_views(files@)),
            r.0.well_formed(),
    {
        let empty = files.len() == 0;
        let mut dispatcher = Dispatcher {
            mode,
            files,
            cursor: 0,
            stage: Stage::Idle,
            outcomes: Vec::new(),
            group: Vec::new(),
        };
        proof {
            lemma_start_well_formed(mode, file_views(files@));
            assert(dispatcher@.outcomes =~= Seq::empty());
            assert(dispatcher@.group =~= Seq::empty());
        }
        if empty {
            dispatcher.stage = Stage::Done;
            (dispatcher, Action::ReportEmpty)
        } else {
            let action = dispatcher.advance();
            (dispatcher, action)
        }
    }

    /// Turns to the file at the cursor.
    fn advance(&mut self) -> (action: Action)
        requires
            old(self)@.cursor <= old(self)@.files.len(),
        ensures
            (final(self)@, action@) == proceed(old(self)@),
    {
        loop
            invariant
                self.cursor <= self.files.len(),
                proceed(self@) == proceed(old(self)@),
            decreases self.files.len() - self.cursor,
        {
            let ghost now = self@;
            if self.cursor >= self.files.len() {
                match self.mode {
                    Mode::Sequential => {
                        self.stage = Stage::Done;
                        return Action::Finish;
                    },
                    Mode::Group => {
                        let mut requests: Vec<SendRequest> = Vec::new();
                        std::mem::swap(&mut self.group, &mut requests);
                        self.stage = Stage::SendingGroup;
                        assert(self@.group =~= Seq::empty());
                        return Action::SendGroup { requests };
                    },
                }
            }
            let file = &self.files[self.cursor];
            if file.kind == MediaKind::Video {
                let path = file.path.clone();
                self.stage = Stage::Enriching;
                return Action::Enrich { path };
            }
            let with_caption = caption_due(self.mode, file.kind, self.cursor);
            let request = build_request(file, with_caption, None);
            match self.mode {
                Mode::Sequential => {
                    self.stage = Stage::Sending;
                    return Action::Send { request };
                },
                Mode::Group => {
                    self.group.push(request);
                    self.cursor = self.cursor + 1;
                    assert(self@.group =~= now.group.push(item_request(now, None)));
                },
            }
        }
    }

    /// Takes the event that the last action ended in, and says what to do
    /// next. An event that the dispatcher does not wait for is refused, and
    /// changes nothing.
    pub fn step(&mut self, event: Event) -> (next: Option<Action>)
        requires
            old(self).well_formed(),
        ensures
            final(self).well_formed(),
            next is Some <==> accepts(old(self)@.stage, event@),
            match next {
                Some(action) => (final(self)@, action@) == step_of(old(self)@, event@),
                None => final(self)@ == old(self)@,
            },
    {
        let ghost before = self@;
        proof {
            if accepts(before.stage, event@) {
                lemma_step_well_formed(before, event@);
            }
            assert(before.files.len() == self.files.len());
            assert(before.cursor == self.cursor);
            assert(before.stage == self.stage);
            assert(before.mode == self.mode);
        }
        match event {
            Event::Enriched { enrichment } => {
                if self.stage != Stage::Enriching {
                    return None;
                }
                let file = &self.files[self.cursor];
                let with_caption = caption_due(self.mode, file.kind, self.cursor);
                let request = build_request(file, with_caption, Some(enrichment));
                match self.mode {
                    Mode::Sequential => {
                        self.stage = Stage::Sending;
                        Some(Action::Send { request })
                    },
                    Mode::Group => {
                        self.group.push(request);
                        self.cursor = self.cursor + 1;
                        assert(self@.group =~= before.group.push(
                            item_request(before, Some(enrichment@)),
                        ));
                        Some(self.advance())
                    },
                }
            },
            Event::Sent { outcome } => {
                if self.stage == Stage::SendingGroup {
                    self.outcomes = outcomes_of_group(&self.files, &outcome);
                    self.stage = Stage::Done;
                    Some(Action::Finish)
                } else if self.stage == Stage::Sending {
                    let path = self.files[self.cursor].path.clone();
                    let action = match &outcome {
                        Outcome::Sent => {
                            self.stage = Stage::Throttling;
                            Action::Wait { millis: THROTTLE_MILLIS }
                        },
                        Outcome::Failed { reason } => {
                            self.stage = Stage::Notifying;
                            Action::Notify { text: failure_message(path.as_str(), reason.as_str()) }
                        },
                    };
                    self.outcomes.push(ItemOutcome { path, outcome });
                    assert(self@.outcomes =~= before.outcomes.push(
                        ItemOutcomeView { path: before.files[before.cursor].path, outcome: outcome@ },
                    ));
                    Some(action)
                } else {
                    None
                }
            },
            Event::Notified => {
                if self.stage != Stage::Notifying {
                    return None;
                }
                self.stage = Stage::Throttling;
                Some(Action::Wait { millis: THROTTLE_MILLIS })
            },
            Event::Waited => {
                if self.stage != Stage::Throttling {
                    return None;
                }
                self.cursor = self.cursor + 1;
                Some(self.advance())
            },
        }
    }

    /// The mode of the run.
    pub fn mode(&self) -> (mode: Mode)
        ensures
            mode == self@.mode,
    {
        self.mode
    }

    /// The stage that the run is in.
    pub fn stage(&self) -> (stage: Stage)
        ensures
            stage == self@.stage,
    {
        self.stage
    }

    /// Whether the run is over.
    pub fn is_done(&self) -> (done: bool)
        ensures
            done == self@.is_done(),
    {
        self.stage == Stage::Done
    }

    /// The files of the batch.
    pub fn files(&self) -> (files: &Vec<MediaFile>)
        ensures
            file_views(files@) == self@.files,
    {
        &self.files
    }

    /// The outcomes so far, in the order of the files.
    pub fn outcomes(&self) -> (outcomes: &Vec<ItemOutcome>)
        ensures
            outcome_views(outcomes@) == self@.outcomes,
    {
        &self.outcomes
    }

    /// Ends the run and hands out its outcomes. After a run that is over
    /// there is one for every file, in the order of the files.
    pub fn into_outcomes(self) -> (outcomes: Vec<ItemOutcome>)
        ensures
            outcome_views(outcomes@) == self@.outcomes,
            self.well_formed() && self@.is_done() ==> outcomes.len() == self@.files.len(),
    {
        self.outcomes
    }
}

} // verus!
