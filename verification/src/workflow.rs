//! The workflows that alternate between outside work and decisions: getting
//! the snapshot of a patch, and filling the history with the patches that are
//! missing. The decisions are here; the caller does the outside work that an
//! action names and hands back what came of it.
//!
//! The backfill takes the versions one after the other, never two at a time,
//! and pauses after every patch that it had to fetch. A patch whose fetch or
//! save fails is logged and passed over: it is not tried again in the same
//! pass.

use vstd::prelude::*;
use crate::models::{PatchData, PatchDataView};
use crate::text::{chars_of, decimal_text, push_decimal, string_of};

verus! {

/// How long the backfill pauses after a patch that it had to fetch, in
/// milliseconds.
pub const PAUSE_MILLIS: u64 = 500;

/// The three texts one after the other.
pub fn message(head: &str, middle: &str, tail: &str) -> (r: String)
    ensures
        r@ == head@ + middle@ + tail@,
{
    let mut out = String::new();
    out.append(head);
    out.append(middle);
    out.append(tail);
    assert(out@ =~= head@ + middle@ + tail@);
    out
}

/// A line for the log: a level and a message.
#[derive(Debug, PartialEq, Eq)]
pub struct LogLine {
    pub level: String,
    pub message: String,
}

/// The view of a [`LogLine`].
pub struct LogLineView {
    pub level: Seq<char>,
    pub message: Seq<char>,
}

impl View for LogLine {
    type V = LogLineView;

    open spec fn view(&self) -> LogLineView {
        LogLineView { level: self.level@, message: self.message@ }
    }
}

/// A line for the log.
fn log_line(level: &str, message: String) -> (r: LogLine)
    ensures
        r@ == (LogLineView { level: level@, message: message@ }),
{
    LogLine { level: level.to_owned(), message }
}

/// Where the snapshot of a patch comes from.
#[derive(Debug, PartialEq, Eq)]
pub enum PatchSource {
    /// From the store: the stored snapshot is the answer.
    Stored { patch: PatchData },
    /// From the web: the line is logged, then the patch is fetched.
    Web { announce: LogLine },
}

/// The view of a [`PatchSource`].
pub enum PatchSourceView {
    Stored { patch: PatchDataView },
    Web { announce: LogLineView },
}

impl View for PatchSource {
    type V = PatchSourceView;

    open spec fn view(&self) -> PatchSourceView {
        match *self {
            PatchSource::Stored { patch } => PatchSourceView::Stored { patch: patch@ },
            PatchSource::Web { announce } => PatchSourceView::Web { announce: announce@ },
        }
    }
}

/// The line that announces the fetch of a patch.
pub open spec fn fetch_announcement(version: Seq<char>) -> LogLineView {
    LogLineView {
        level: "INFO"@,
        message: "Fetching patch data for "@ + version + " from web..."@,
    }
}

/// Where the snapshot of a patch comes from: from the store, where the store
/// has it and no fresh fetch is asked for, else from the web.
pub open spec fn source_of(
    version: Seq<char>,
    force_refresh: bool,
    stored: Option<PatchDataView>,
) -> PatchSourceView {
    match stored {
        Some(patch) if !force_refresh => PatchSourceView::Stored { patch },
        _ => PatchSourceView::Web { announce: fetch_announcement(version) },
    }
}

/// What follows the fetch of a patch.
#[derive(Debug, PartialEq, Eq)]
pub struct FetchOutcome {
    /// The snapshot to store, if the fetch gave one.
    pub save: Option<PatchData>,
    /// The line to log.
    pub log: LogLine,
    /// The error to hand to the caller, if the fetch failed.
    pub error: Option<String>,
}

/// The view of a [`FetchOutcome`].
pub struct FetchOutcomeView {
    pub save: Option<PatchDataView>,
    pub log: LogLineView,
    pub error: Option<Seq<char>>,
}

impl View for FetchOutcome {
    type V = FetchOutcomeView;

    open spec fn view(&self) -> FetchOutcomeView {
        FetchOutcomeView {
            save: match self.save {
                Some(patch) => Some(patch@),
                None => None,
            },
            log: self.log@,
            error: match self.error {
                Some(e) => Some(e@),
                None => None,
            },
        }
    }
}

/// What follows the fetch of a patch: a snapshot is stored and the success is
/// logged; a failure is logged and handed on.
pub open spec fn outcome_of(
    version: Seq<char>,
    fetched: Result<PatchDataView, Seq<char>>,
) -> FetchOutcomeView {
    match fetched {
        Ok(patch) => FetchOutcomeView {
            save: Some(patch),
            log: LogLineView {
                level: "SUCCESS"@,
                message: "Data for "@ + version + " fetched and saved."@,
            },
            error: None,
        },
        Err(e) => FetchOutcomeView {
            save: None,
            log: LogLineView {
                level: "ERROR"@,
                message: "Failed to fetch patch "@ + version + ": "@ + e,
            },
            error: Some(e),
        },
    }
}

/// The view of what a fetch gave.
pub open spec fn fetched_view(fetched: Result<PatchData, String>) -> Result<
    PatchDataView,
    Seq<char>,
> {
    match fetched {
        Ok(patch) => Ok(patch@),
        Err(e) => Err(e@),
    }
}

/// Decides where the snapshot of a patch comes from. `stored` is what the
/// store has under the version.
pub fn get_or_fetch_patch(version: &str, force_refresh: bool, stored: Option<PatchData>) -> (r:
    PatchSource)
    ensures
        r@ == source_of(
            version@,
            force_refresh,
            match stored {
                Some(patch) => Some(patch@),
                None => None,
            },
        ),
{
    match stored {
        Some(patch) if !force_refresh => PatchSource::Stored { patch },
        _ => PatchSource::Web {
            announce: log_line("INFO", message("Fetching patch data for ", version, " from web...")),
        },
    }
}

/// Decides what follows the fetch of a patch.
pub fn after_fetch(version: &str, fetched: Result<PatchData, String>) -> (r: FetchOutcome)
    ensures
        r@ == outcome_of(version@, fetched_view(fetched)),
{
    match fetched {
        Ok(patch) => FetchOutcome {
            save: Some(patch),
            log: log_line("SUCCESS", message("Data for ", version, " fetched and saved.")),
            error: None,
        },
        Err(e) => {
            let mut text = message("Failed to fetch patch ", version, ": ");
            text.append(e.as_str());
            FetchOutcome { save: None, log: log_line("ERROR", text), error: Some(e) }
        },
    }
}

/// Where the backfill stands.
#[derive(Clone, Copy, Debug, PartialEq, Eq, Structural)]
pub enum SyncPhase {
    /// Not started.
    Idle,
    /// Waiting for the list of versions.
    Listing,
    /// Waiting to hear whether the store has the version at hand.
    Checking,
    /// Waiting for the fetch of the version at hand.
    Fetching,
    /// Waiting for the store to save the fetched snapshot.
    Saving,
    /// Pausing before the next version.
    Pausing,
    /// Done.
    Finished,
}

/// What came of the outside work that the backfill asked for.
#[derive(Debug, PartialEq, Eq)]
pub enum SyncEvent {
    /// The caller asks the backfill to start.
    Begin,
    /// The versions that can be had.
    Listed { versions: Vec<String> },
    /// The versions could not be listed.
    ListFailed { error: String },
    /// Whether the store has the version at hand.
    Stored { found: bool },
    /// The snapshot of the version at hand.
    Fetched { patch: PatchData },
    /// The version at hand could not be fetched.
    FetchFailed { error: String },
    /// The snapshot was saved.
    Saved,
    /// The snapshot could not be saved.
    SaveFailed { error: String },
    /// The pause is over.
    Paused,
}

/// The view of a [`SyncEvent`].
pub enum SyncEventView {
    Begin,
    Listed { versions: Seq<Seq<char>> },
    ListFailed { error: Seq<char> },
    Stored { found: bool },
    Fetched { patch: PatchDataView },
    FetchFailed { error: Seq<char> },
    Saved,
    SaveFailed { error: Seq<char> },
    Paused,
}

impl View for SyncEvent {
    type V = SyncEventView;

    open spec fn view(&self) -> SyncEventView {
        match *self {
            SyncEvent::Begin => SyncEventView::Begin,
            SyncEvent::Listed { versions } => SyncEventView::Listed {
                versions: versions.deep_view(),
            },
            SyncEvent::ListFailed { error } => SyncEventView::ListFailed { error: error@ },
            SyncEvent::Stored { found } => SyncEventView::Stored { found },
            SyncEvent::Fetched { patch } => SyncEventView::Fetched { patch: patch@ },
            SyncEvent::FetchFailed { error } => SyncEventView::FetchFailed { error: error@ },
            SyncEvent::Saved => SyncEventView::Saved,
            SyncEvent::SaveFailed { error } => SyncEventView::SaveFailed { error: error@ },
            SyncEvent::Paused => SyncEventView::Paused,
        }
    }
}

/// The outside work that the backfill asks for.
#[derive(Debug, PartialEq, Eq)]
pub enum SyncAction {
    /// Log the line.
    Log { line: LogLine },
    /// List the versions that can be had, and answer with `Listed` or
    /// `ListFailed`.
    ListVersions,
    /// Look the version up in the store, and answer with `Stored`.
    CheckStored { version: String },
    /// Fetch the patch, and answer with `Fetched` or `FetchFailed`.
    Fetch { version: String },
    /// Save the snapshot, and answer with `Saved` or `SaveFailed`.
    Save { patch: PatchData },
    /// Wait for so many milliseconds, and answer with `Paused`.
    Pause { millis: u64 },
    /// The backfill is over, with the error it ended with, if any.
    Finish { error: Option<String> },
}

/// The view of a [`SyncAction`].
pub enum SyncActionView {
    Log { line: LogLineView },
    ListVersions,
    CheckStored { version: Seq<char> },
    Fetch { version: Seq<char> },
    Save { patch: PatchDataView },
    Pause { millis: u64 },
    Finish { error: Option<Seq<char>> },
}

impl View for SyncAction {
    type V = SyncActionView;

    open spec fn view(&self) -> SyncActionView {
        match *self {
            SyncAction::Log { line } => SyncActionView::Log { line: line@ },
            SyncAction::ListVersions => SyncActionView::ListVersions,
            SyncAction::CheckStored { version } => SyncActionView::CheckStored {
                version: version@,
            },
            SyncAction::Fetch { version } => SyncActionView::Fetch { version: version@ },
            SyncAction::Save { patch } => SyncActionView::Save { patch: patch@ },
            SyncAction::Pause { millis } => SyncActionView::Pause { millis },
            SyncAction::Finish { error } => SyncActionView::Finish {
                error: match error {
                    Some(e) => Some(e@),
                    None => None,
                },
            },
        }
    }
}

impl DeepView for SyncAction {
    type V = SyncActionView;

    open spec fn deep_view(&self) -> SyncActionView {
        self@
    }
}

/// The state of a backfill, as contracts see it.
pub struct SyncView {
    pub phase: SyncPhase,
    /// The versions to go through.
    pub versions: Seq<Seq<char>>,
    /// The position of the version at hand.
    pub position: nat,
}

/// A log action with the given level and message.
pub open spec fn log_action(level: Seq<char>, message: Seq<char>) -> SyncActionView {
    SyncActionView::Log { line: LogLineView { level, message } }
}

/// The backfill turns to the version at `position`: it asks whether the store
/// has it, or ends with success where the list is at its end.
pub open spec fn turn_to(versions: Seq<Seq<char>>, position: nat) -> (SyncView, Seq<SyncActionView>) {
    if position < versions.len() {
        (
            SyncView { phase: SyncPhase::Checking, versions, position },
            seq![SyncActionView::CheckStored { version: versions[position as int] }],
        )
    } else {
        (
            SyncView { phase: SyncPhase::Finished, versions, position },
            seq![
                log_action("SUCCESS"@, "History sync completed."@),
                SyncActionView::Finish { error: None },
            ],
        )
    }
}

/// The backfill logs a line, pauses, and goes on with the next version after
/// the pause.
pub open spec fn log_and_pause(state: SyncView, level: Seq<char>, message: Seq<char>) -> (
    SyncView,
    Seq<SyncActionView>,
) {
    (
        SyncView { phase: SyncPhase::Pausing, ..state },
        seq![log_action(level, message), SyncActionView::Pause { millis: PAUSE_MILLIS }],
    )
}

/// What the backfill does on an event: the state it goes to and the actions
/// it asks for, in order. An event that the state does not wait for changes
/// nothing and asks for nothing.
pub open spec fn sync_step(state: SyncView, event: SyncEventView) -> (SyncView, Seq<SyncActionView>) {
    let here = if state.position < state.versions.len() {
        state.versions[state.position as int]
    } else {
        Seq::empty()
    };
    match (state.phase, event) {
        (SyncPhase::Idle, SyncEventView::Begin) => (
            SyncView { phase: SyncPhase::Listing, ..state },
            seq![
                log_action("INFO"@, "Starting full history sync..."@),
                SyncActionView::ListVersions,
            ],
        ),
        (SyncPhase::Listing, SyncEventView::ListFailed { error }) => (
            SyncView { phase: SyncPhase::Finished, ..state },
            seq![SyncActionView::Finish { error: Some(error) }],
        ),
        (SyncPhase::Listing, SyncEventView::Listed { versions }) => {
            let next = turn_to(versions, 0);
            (
                next.0,
                seq![
                    log_action(
                        "INFO"@,
                        "Found "@ + decimal_text(versions.len()) + " patches to check."@,
                    ),
                ] + next.1,
            )
        },
        (SyncPhase::Checking, SyncEventView::Stored { found }) => {
            if found {
                turn_to(state.versions, state.position + 1)
            } else {
                (
                    SyncView { phase: SyncPhase::Fetching, ..state },
                    seq![
                        log_action("INFO"@, "Downloading missing patch: "@ + here + " ..."@),
                        SyncActionView::Fetch { version: here },
                    ],
                )
            }
        },
        (SyncPhase::Fetching, SyncEventView::Fetched { patch }) => (
            SyncView { phase: SyncPhase::Saving, ..state },
            seq![SyncActionView::Save { patch }],
        ),
        (SyncPhase::Fetching, SyncEventView::FetchFailed { error }) => log_and_pause(
            state,
            "ERROR"@,
            "Failed to download "@ + here + ": "@ + error,
        ),
        (SyncPhase::Saving, SyncEventView::Saved) => log_and_pause(
            state,
            "SUCCESS"@,
            "Saved patch "@ + here,
        ),
        (SyncPhase::Saving, SyncEventView::SaveFailed { error }) => log_and_pause(
            state,
            "ERROR"@,
            "Failed to save "@ + here + ": "@ + error,
        ),
        (SyncPhase::Pausing, SyncEventView::Paused) => turn_to(
            state.versions,
            state.position + 1,
        ),
        _ => (state, Seq::empty()),
    }
}

/// A backfill of the history: the versions it goes through and where it
/// stands among them.
pub struct HistorySync {
    phase: SyncPhase,
    versions: Vec<String>,
    position: usize,
}

impl View for HistorySync {
    type V = SyncView;

    closed spec fn view(&self) -> SyncView {
        SyncView {
            phase: self.phase,
            versions: self.versions.deep_view(),
            position: self.position as nat,
        }
    }
}

/// A log action.
fn log(level: &str, message: String) -> (r: SyncAction)
    ensures
        r@ == log_action(level@, message@),
{
    SyncAction::Log { line: log_line(level, message) }
}

impl HistorySync {
    /// While the backfill waits for word on a version, that version is at
    /// hand; before the versions are listed, it stands at the start.
    #[verifier::type_invariant]
    spec fn well_formed(self) -> bool {
        &&& (self.phase == SyncPhase::Checking || self.phase == SyncPhase::Fetching
            || self.phase == SyncPhase::Saving || self.phase == SyncPhase::Pausing)
            ==> self.position < self.versions.len()
        &&& (self.phase == SyncPhase::Idle || self.phase == SyncPhase::Listing) ==> self.position
            == 0
    }

    /// A backfill that has not started.
    pub fn new() -> (r: HistorySync)
        ensures
            r@ == (SyncView { phase: SyncPhase::Idle, versions: Seq::empty(), position: 0 }),
    {
        let sync = HistorySync { phase: SyncPhase::Idle, versions: Vec::new(), position: 0 };
        assert(sync.versions.deep_view() =~= Seq::<Seq<char>>::empty());
        sync
    }

    /// Where the backfill stands.
    pub fn phase(&self) -> (r: SyncPhase)
        ensures
            r == self@.phase,
    {
        self.phase
    }

    /// Whether the backfill is over.
    pub fn is_finished(&self) -> (r: bool)
        ensures
            r == (self@.phase == SyncPhase::Finished),
    {
        self.phase == SyncPhase::Finished
    }

    /// Turns to the version at `position`, after the actions that are asked
    /// for already.
    fn turn(versions: Vec<String>, position: usize, asked: Vec<SyncAction>) -> (r: (
        HistorySync,
        Vec<SyncAction>,
    ))
        requires
            position <= versions.len(),
        ensures
            r.0@ == turn_to(versions.deep_view(), position as nat).0,
            r.1.deep_view() == asked.deep_view() + turn_to(
                versions.deep_view(),
                position as nat,
            ).1,
    {
        let mut actions = asked;
        let ghost before = actions.deep_view();
        if position < versions.len() {
            assert(versions.deep_view()[position as int] == versions[position as int]@);
            actions.push(SyncAction::CheckStored { version: versions[position].clone() });
            let sync = HistorySync { phase: SyncPhase::Checking, versions, position };
            assert(actions.deep_view() =~= before + turn_to(
                versions.deep_view(),
                position as nat,
            ).1);
            (sync, actions)
        } else {
            actions.push(log("SUCCESS", "History sync completed.".to_owned()));
            actions.push(SyncAction::Finish { error: None });
            let sync = HistorySync { phase: SyncPhase::Finished, versions, position };
            assert(actions.deep_view() =~= before + turn_to(
                versions.deep_view(),
                position as nat,
            ).1);
            (sync, actions)
        }
    }

    /// Logs a line and pauses.
    fn pause(self, level: &str, message: String) -> (r: (HistorySync, Vec<SyncAction>))
        requires
            self.position < self.versions.len(),
        ensures
            (r.0@, r.1.deep_view()) == log_and_pause(self@, level@, message@),
    {
        let mut actions: Vec<SyncAction> = Vec::new();
        actions.push(log(level, message));
        actions.push(SyncAction::Pause { millis: PAUSE_MILLIS });
        let sync = HistorySync {
            phase: SyncPhase::Pausing,
            versions: self.versions,
            position: self.position,
        };
        assert(actions.deep_view() =~= log_and_pause(self@, level@, message@).1);
        (sync, actions)
    }

    /// Changes nothing and asks for nothing.
    fn stay(self) -> (r: (HistorySync, Vec<SyncAction>))
        ensures
            r.0@ == self@,
            r.1.deep_view() == Seq::<SyncActionView>::empty(),
    {
        let actions: Vec<SyncAction> = Vec::new();
        assert(actions.deep_view() =~= Seq::<SyncActionView>::empty());
        (self, actions)
    }

    /// Takes what came of the outside work, and says what to do next: the
    /// actions to perform, in order. The last action of a step that is not
    /// the end asks for the work whose outcome is the next event.
    pub fn step(self, event: SyncEvent) -> (r: (HistorySync, Vec<SyncAction>))
        ensures
            (r.0@, r.1.deep_view()) == sync_step(self@, event@),
            r.0@.position >= self@.position,
    {
        proof {
            use_type_invariant(&self);
        }
        match (self.phase, event) {
            (SyncPhase::Idle, SyncEvent::Begin) => {
                let mut actions: Vec<SyncAction> = Vec::new();
                actions.push(log("INFO", "Starting full history sync...".to_owned()));
                actions.push(SyncAction::ListVersions);
                let sync = HistorySync {
                    phase: SyncPhase::Listing,
                    versions: self.versions,
                    position: self.position,
                };
                assert(actions.deep_view() =~= sync_step(self@, event@).1);
                (sync, actions)
            },
            (SyncPhase::Listing, SyncEvent::ListFailed { error }) => {
                let mut actions: Vec<SyncAction> = Vec::new();
                actions.push(SyncAction::Finish { error: Some(error) });
                let sync = HistorySync {
                    phase: SyncPhase::Finished,
                    versions: self.versions,
                    position: self.position,
                };
                assert(actions.deep_view() =~= sync_step(self@, event@).1);
                (sync, actions)
            },
            (SyncPhase::Listing, SyncEvent::Listed { versions }) => {
                let mut text = chars_of("Found ");
                push_decimal(versions.len(), &mut text);
                let tail = chars_of(" patches to check.");
                let ghost head = text@;
                let mut i: usize = 0;
                assert(head + tail@.take(0) =~= head);
                while i < tail.len()
                    invariant
                        i <= tail.len(),
                        text@ == head + tail@.take(i as int),
                    decreases tail.len() - i,
                {
                    text.push(tail[i]);
                    assert(head + tail@.take(i + 1) =~= (head + tail@.take(i as int)).push(
                        tail[i as int],
                    ));
                    i = i + 1;
                }
                assert(tail@.take(tail.len() as int) =~= tail@);
                let mut actions: Vec<SyncAction> = Vec::new();
                actions.push(log("INFO", string_of(&text)));
                assert(actions.deep_view() =~= seq![
                    log_action(
                        "INFO"@,
                        "Found "@ + decimal_text(versions.len() as nat) + " patches to check."@,
                    ),
                ]);
                Self::turn(versions, 0, actions)
            },
            (SyncPhase::Checking, SyncEvent::Stored { found }) => {
                if found {
                    let actions: Vec<SyncAction> = Vec::new();
                    assert(actions.deep_view() + turn_to(
                        self.versions.deep_view(),
                        (self.position + 1) as nat,
                    ).1 =~= turn_to(self.versions.deep_view(), (self.position + 1) as nat).1);
                    Self::turn(self.versions, self.position + 1, actions)
                } else {
                    let here = self.versions[self.position].clone();
                    assert(self.versions.deep_view()[self.position as int] == here@);
                    let mut actions: Vec<SyncAction> = Vec::new();
                    actions.push(
                        log("INFO", message("Downloading missing patch: ", here.as_str(), " ...")),
                    );
                    actions.push(SyncAction::Fetch { version: here });
                    let sync = HistorySync {
                        phase: SyncPhase::Fetching,
                        versions: self.versions,
                        position: self.position,
                    };
                    assert(actions.deep_view() =~= sync_step(self@, event@).1);
                    (sync, actions)
                }
            },
            (SyncPhase::Fetching, SyncEvent::Fetched { patch }) => {
                let mut actions: Vec<SyncAction> = Vec::new();
                actions.push(SyncAction::Save { patch });
                let sync = HistorySync {
                    phase: SyncPhase::Saving,
                    versions: self.versions,
                    position: self.position,
                };
                assert(actions.deep_view() =~= sync_step(self@, event@).1);
                (sync, actions)
            },
            (SyncPhase::Fetching, SyncEvent::FetchFailed { error }) => {
                assert(self.versions.deep_view()[self.position as int]
                    == self.versions[self.position as int]@);
                let mut text = message(
                    "Failed to download ",
                    self.versions[self.position].as_str(),
                    ": ",
                );
                text.append(error.as_str());
                self.pause("ERROR", text)
            },
            (SyncPhase::Saving, SyncEvent::Saved) => {
                assert(self.versions.deep_view()[self.position as int]
                    == self.versions[self.position as int]@);
                let text = message("Saved patch ", self.versions[self.position].as_str(), "");
                proof {
                    reveal_strlit("");
                    assert(text@ =~= "Saved patch "@ + self.versions[self.position as int]@);
                }
                self.pause("SUCCESS", text)
            },
            (SyncPhase::Saving, SyncEvent::SaveFailed { error }) => {
                assert(self.versions.deep_view()[self.position as int]
                    == self.versions[self.position as int]@);
                let mut text = message(
                    "Failed to save ",
                    self.versions[self.position].as_str(),
                    ": ",
                );
                text.append(error.as_str());
                self.pause("ERROR", text)
            },
            (SyncPhase::Pausing, SyncEvent::Paused) => {
                let actions: Vec<SyncAction> = Vec::new();
                assert(actions.deep_view() + turn_to(
                    self.versions.deep_view(),
                    (self.position + 1) as nat,
                ).1 =~= turn_to(self.versions.deep_view(), (self.position + 1) as nat).1);
                Self::turn(self.versions, self.position + 1, actions)
            },
            _ => self.stay(),
        }
    }
}

/// One of the actions asks to fetch a patch.
pub open spec fn asks_to_fetch(actions: Seq<SyncActionView>) -> bool {
    exists|i: int| 0 <= i < actions.len() && #[trigger] actions[i] is Fetch
}

/// One of the actions asks for a pause.
pub open spec fn asks_to_pause(actions: Seq<SyncActionView>) -> bool {
    exists|i: int| 0 <= i < actions.len() && #[trigger] actions[i] is Pause
}

/// The backfill takes the versions one after the other and is polite about
/// it. It never goes back in the list, so no version is tried twice in a
/// pass. It asks for a fetch only when the store reports the version at hand
/// missing, and then for that version. Once a fetch is asked for, the
/// backfill turns to the next version only after a pause, whether the fetch
/// and the save succeed or fail.
pub proof fn lemma_backfill_is_sequential(state: SyncView, event: SyncEventView)
    ensures
        sync_step(state, event).0.position >= state.position || state.phase
            == SyncPhase::Listing,
        state.phase != SyncPhase::Listing ==> sync_step(state, event).0.versions
            == state.versions,
        asks_to_fetch(sync_step(state, event).1) ==> {
            &&& state.phase == SyncPhase::Checking
            &&& event == (SyncEventView::Stored { found: false })
            &&& sync_step(state, event).0.phase == SyncPhase::Fetching
            &&& sync_step(state, event).0.position == state.position
        },
        state.phase == SyncPhase::Fetching ==> {
            &&& sync_step(state, event).0.position == state.position
            &&& (sync_step(state, event).0.phase == SyncPhase::Fetching || sync_step(
                state,
                event,
            ).0.phase == SyncPhase::Saving || sync_step(state, event).0.phase
                == SyncPhase::Pausing)
        },
        state.phase == SyncPhase::Saving ==> {
            &&& sync_step(state, event).0.position == state.position
            &&& (sync_step(state, event).0.phase == SyncPhase::Saving || sync_step(
                state,
                event,
            ).0.phase == SyncPhase::Pausing)
        },
        sync_step(state, event).0.phase == SyncPhase::Pausing && state.phase
            != SyncPhase::Pausing ==> asks_to_pause(sync_step(state, event).1),
        state.phase == SyncPhase::Pausing && sync_step(state, event).0.phase
            != SyncPhase::Pausing ==> event == SyncEventView::Paused && sync_step(
            state,
            event,
        ).0.position == state.position + 1,
        state.phase == SyncPhase::Finished ==> sync_step(state, event) == (
            state,
            Seq::<SyncActionView>::empty(),
        ),
{
    let next = sync_step(state, event);
    if asks_to_fetch(next.1) {
        let i = choose|i: int| 0 <= i < next.1.len() && #[trigger] next.1[i] is Fetch;
        assert(next.1[i] is Fetch);
    }
    if next.0.phase == SyncPhase::Pausing && state.phase != SyncPhase::Pausing {
        assert(next.1[1] is Pause);
    }
}

} // verus!
