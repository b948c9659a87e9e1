//! The course of one install. The installation decides and whoever drives it
//! acts: it names the next thing to do, the driver does it and reports what
//! came of it. Nothing is committed before every line of the manifest has been
//! read as an entry and staged, and after a failure nothing is done at all.

use vstd::prelude::*;
use vstd::string::StringExecFns;
use crate::errors::{Error, ErrorView};
use crate::manifest::{decoded, ComponentKind, ComponentPart, PartView};
use crate::text::{lines, split_lines};

verus! {

/// Why an install was given up.
#[derive(Clone, Copy, Debug, PartialEq, Eq, Structural)]
pub enum Cause {
    /// The manifest could not be read, or a line of it is no entry.
    Corrupt,
    /// The builder failed to stage a copy, or to commit.
    Builder,
}

/// Where an install stands.
#[derive(Clone, Copy, Debug, PartialEq, Eq, Structural)]
pub enum Phase {
    /// The manifest is yet to be read.
    ReadingManifest,
    /// The manifest is read; the builder is yet to be opened.
    OpeningBuilder,
    /// The entry under the cursor is yet to be staged.
    Staging,
    /// Every entry is staged; the builder is yet to commit.
    Committing,
    /// The component is installed.
    Done,
    /// The install was given up.
    Aborted(Cause),
}

/// A place in a package: `path` in the directory `component` under `root`.
#[derive(Clone, Debug, PartialEq, Eq)]
pub struct Source {
    pub root: String,
    pub component: String,
    pub path: String,
}

/// A `Source` with its parts as sequences of characters.
pub struct SourceView {
    pub root: Seq<char>,
    pub component: Seq<char>,
    pub path: Seq<char>,
}

impl View for Source {
    type V = SourceView;

    open spec fn view(&self) -> SourceView {
        SourceView { root: self.root@, component: self.component@, path: self.path@ }
    }
}

/// What the driver is to do next.
#[derive(Clone, Debug, PartialEq, Eq)]
pub enum Action {
    /// Read the text of the manifest at this place.
    ReadManifest(Source),
    /// Open a builder for the component of this name.
    OpenBuilder(String),
    /// Stage the copy of the file at this place to the same path in the
    /// destination.
    CopyFile(Source),
    /// Stage the copy of the directory at this place, with all below it, to
    /// the same path in the destination.
    CopyDir(Source),
    /// Commit what the builder has staged.
    Finish,
    /// Nothing: the component is installed.
    Installed,
    /// Nothing: the install failed with this error, and staged nothing that
    /// was committed.
    Failed(Error),
}

/// An `Action` with its texts as sequences of characters.
pub enum ActionView {
    ReadManifest(SourceView),
    OpenBuilder(Seq<char>),
    CopyFile(SourceView),
    CopyDir(SourceView),
    Finish,
    Installed,
    Failed(ErrorView),
}

impl View for Action {
    type V = ActionView;

    open spec fn view(&self) -> ActionView {
        match self {
            Action::ReadManifest(source) => ActionView::ReadManifest(source@),
            Action::OpenBuilder(name) => ActionView::OpenBuilder(name@),
            Action::CopyFile(source) => ActionView::CopyFile(source@),
            Action::CopyDir(source) => ActionView::CopyDir(source@),
            Action::Finish => ActionView::Finish,
            Action::Installed => ActionView::Installed,
            Action::Failed(error) => ActionView::Failed(error@),
        }
    }
}

/// What came of the action that the driver was asked for.
#[derive(Clone, Debug, PartialEq, Eq)]
pub enum Event {
    /// The manifest was read, and this is its text.
    ManifestRead(String),
    /// The manifest could not be read.
    ManifestUnreadable,
    /// The builder is open.
    BuilderOpened,
    /// The copy is staged.
    Copied,
    /// The builder could not stage the copy.
    CopyFailed,
    /// The builder has committed.
    Finished,
    /// The builder could not commit.
    FinishFailed,
}

/// An `Event` with its text as a sequence of characters.
pub enum EventView {
    ManifestRead(Seq<char>),
    ManifestUnreadable,
    BuilderOpened,
    Copied,
    CopyFailed,
    Finished,
    FinishFailed,
}

impl View for Event {
    type V = EventView;

    open spec fn view(&self) -> EventView {
        match self {
            Event::ManifestRead(text) => EventView::ManifestRead(text@),
            Event::ManifestUnreadable => EventView::ManifestUnreadable,
            Event::BuilderOpened => EventView::BuilderOpened,
            Event::Copied => EventView::Copied,
            Event::CopyFailed => EventView::CopyFailed,
            Event::Finished => EventView::Finished,
            Event::FinishFailed => EventView::FinishFailed,
        }
    }
}

/// An install as contracts see it.
pub struct InstallationView {
    /// The directory of the package.
    pub root: Seq<char>,
    /// The name under which the component was asked for.
    pub requested: Seq<char>,
    /// The name of the component's directory in the package.
    pub component: Seq<char>,
    /// The lines of the manifest; none before it is read.
    pub manifest: Seq<Seq<char>>,
    /// How many lines are dealt with.
    pub cursor: nat,
    pub phase: Phase,
}

/// The name of the manifest in a component's directory.
pub const MANIFEST_FILE: &'static str = "manifest.in";

/// The entry in line `i` of `manifest`, if there is such a line and it is one.
pub open spec fn entry_at(manifest: Seq<Seq<char>>, i: nat) -> Option<PartView> {
    if i < manifest.len() {
        decoded(manifest[i as int])
    } else {
        None
    }
}

/// An install of `component`, asked for as `requested`, from the package at
/// `root`, before anything is done.
pub open spec fn begun(
    root: Seq<char>,
    requested: Seq<char>,
    component: Seq<char>,
) -> InstallationView {
    InstallationView {
        root,
        requested,
        component,
        manifest: Seq::empty(),
        cursor: 0,
        phase: Phase::ReadingManifest,
    }
}

/// The install `s` as it turns to line `i` of its manifest: past the last line
/// it is ready to commit, at a line that is no entry it is given up, at an
/// entry it is to stage it.
pub open spec fn arrived(s: InstallationView, i: nat) -> InstallationView {
    if i < s.manifest.len() {
        InstallationView {
            cursor: i,
            phase: if decoded(s.manifest[i as int]) is Some {
                Phase::Staging
            } else {
                Phase::Aborted(Cause::Corrupt)
            },
            ..s
        }
    } else {
        InstallationView { cursor: s.manifest.len(), phase: Phase::Committing, ..s }
    }
}

/// The install `s` after the driver reported `event`. An event that does not
/// answer the action that `s` is waiting for changes nothing.
pub open spec fn stepped(s: InstallationView, event: EventView) -> InstallationView {
    match (s.phase, event) {
        (Phase::ReadingManifest, EventView::ManifestRead(text)) => InstallationView {
            manifest: lines(text),
            cursor: 0,
            phase: Phase::OpeningBuilder,
            ..s
        },
        (Phase::ReadingManifest, EventView::ManifestUnreadable) => InstallationView {
            phase: Phase::Aborted(Cause::Corrupt),
            ..s
        },
        (Phase::OpeningBuilder, EventView::BuilderOpened) => arrived(s, 0),
        (Phase::Staging, EventView::Copied) => arrived(s, s.cursor + 1),
        (Phase::Staging, EventView::CopyFailed) => InstallationView {
            phase: Phase::Aborted(Cause::Builder),
            ..s
        },
        (Phase::Committing, EventView::Finished) => InstallationView { phase: Phase::Done, ..s },
        (Phase::Committing, EventView::FinishFailed) => InstallationView {
            phase: Phase::Aborted(Cause::Builder),
            ..s
        },
        _ => s,
    }
}

/// The action that the install `s` is waiting for.
pub open spec fn pending(s: InstallationView) -> ActionView {
    match s.phase {
        Phase::ReadingManifest => ActionView::ReadManifest(
            SourceView { root: s.root, component: s.component, path: MANIFEST_FILE@ },
        ),
        Phase::OpeningBuilder => ActionView::OpenBuilder(s.requested),
        Phase::Staging => match entry_at(s.manifest, s.cursor) {
            Some(part) => {
                let source = SourceView { root: s.root, component: s.component, path: part.path };
                match part.kind {
                    ComponentKind::File => ActionView::CopyFile(source),
                    ComponentKind::Dir => ActionView::CopyDir(source),
                }
            },
            None => ActionView::Failed(ErrorView::CorruptComponent(s.requested)),
        },
        Phase::Committing => ActionView::Finish,
        Phase::Done => ActionView::Installed,
        Phase::Aborted(Cause::Corrupt) => ActionView::Failed(
            ErrorView::CorruptComponent(s.requested),
        ),
        Phase::Aborted(Cause::Builder) => ActionView::Failed(ErrorView::Staging),
    }
}

/// One install of one component: what is known of it, and where it stands.
pub struct Installation {
    root: String,
    requested: String,
    component: String,
    manifest: Vec<String>,
    cursor: usize,
    phase: Phase,
}

impl View for Installation {
    type V = InstallationView;

    closed spec fn view(&self) -> InstallationView {
        InstallationView {
            root: self.root@,
            requested: self.requested@,
            component: self.component@,
            manifest: self.manifest.deep_view(),
            cursor: self.cursor as nat,
            phase: self.phase,
        }
    }
}

impl Installation {
    /// An install of the component in the directory `component` of the
    /// package at `root`, asked for under the name `requested`.
    pub fn new(root: String, requested: String, component: String) -> (run: Installation)
        ensures
            run@ == begun(root@, requested@, component@),
    {
        let run = Installation {
            root,
            requested,
            component,
            manifest: Vec::new(),
            cursor: 0,
            phase: Phase::ReadingManifest,
        };
        assert(run.manifest.deep_view() =~= Seq::empty());
        run
    }

    /// Where the install stands.
    pub fn phase(&self) -> (phase: Phase)
        ensures
            phase == self@.phase,
    {
        self.phase
    }

    /// The place of `path` in the component's directory.
    fn place(&self, path: String) -> (source: Source)
        ensures
            source@ == (SourceView {
                root: self@.root,
                component: self@.component,
                path: path@,
            }),
    {
        Source { root: self.root.clone(), component: self.component.clone(), path }
    }

    /// The failure of an install whose manifest is unreadable or wrong.
    fn corrupt(&self) -> (action: Action)
        ensures
            action@ == ActionView::Failed(ErrorView::CorruptComponent(self@.requested)),
    {
        Action::Failed(Error::CorruptComponent(self.requested.clone()))
    }

    /// The action that the install is waiting for.
    pub fn pending(&self) -> (action: Action)
        ensures
            action@ == pending(self@),
    {
        match self.phase {
            Phase::ReadingManifest => Action::ReadManifest(
                self.place(String::from_str(MANIFEST_FILE)),
            ),
            Phase::OpeningBuilder => Action::OpenBuilder(self.requested.clone()),
            Phase::Staging => {
                if self.cursor < self.manifest.len() {
                    assert(self.manifest.deep_view()[self.cursor as int]
                        == self.manifest[self.cursor as int]@);
                    match ComponentPart::decode(self.manifest[self.cursor].as_str()) {
                        Some(part) => match part.kind {
                            ComponentKind::File => Action::CopyFile(self.place(part.path)),
                            ComponentKind::Dir => Action::CopyDir(self.place(part.path)),
                        },
                        None => self.corrupt(),
                    }
                } else {
                    self.corrupt()
                }
            },
            Phase::Committing => Action::Finish,
            Phase::Done => Action::Installed,
            Phase::Aborted(Cause::Corrupt) => self.corrupt(),
            Phase::Aborted(Cause::Builder) => Action::Failed(Error::Staging),
        }
    }

    /// Turns to line `i` of the manifest.
    fn arrive(&mut self, i: usize)
        ensures
            final(self)@ == arrived(old(self)@, i as nat),
    {
        if i < self.manifest.len() {
            assert(self.manifest.deep_view()[i as int] == self.manifest[i as int]@);
            self.cursor = i;
            self.phase = match ComponentPart::decode(self.manifest[i].as_str()) {
                Some(_) => Phase::Staging,
                None => Phase::Aborted(Cause::Corrupt),
            };
        } else {
            self.cursor = self.manifest.len();
            self.phase = Phase::Committing;
        }
    }

    /// Takes in what came of the last action, and returns the next one.
    pub fn step(&mut self, event: Event) -> (action: Action)
        ensures
            final(self)@ == stepped(old(self)@, event@),
            action@ == pending(final(self)@),
    {
        match self.phase {
            Phase::ReadingManifest => match event {
                Event::ManifestRead(text) => {
                    self.manifest = split_lines(text.as_str());
                    self.cursor = 0;
                    self.phase = Phase::OpeningBuilder;
                },
                Event::ManifestUnreadable => {
                    self.phase = Phase::Aborted(Cause::Corrupt);
                },
                _ => {},
            },
            Phase::OpeningBuilder => match event {
                Event::BuilderOpened => {
                    self.arrive(0);
                },
                _ => {},
            },
            Phase::Staging => match event {
                Event::Copied => {
                    let next: usize = if self.cursor < self.manifest.len() {
                        self.cursor + 1
                    } else {
                        self.manifest.len()
                    };
                    assert(arrived(self@, next as nat) == arrived(self@, self@.cursor + 1));
                    self.arrive(next);
                },
                Event::CopyFailed => {
                    self.phase = Phase::Aborted(Cause::Builder);
                },
                _ => {},
            },
            Phase::Committing => match event {
                Event::Finished => {
                    self.phase = Phase::Done;
                },
                Event::FinishFailed => {
                    self.phase = Phase::Aborted(Cause::Builder);
                },
                _ => {},
            },
            Phase::Done => {},
            Phase::Aborted(_) => {},
        }
        self.pending()
    }
}

/// The install `s` after the driver reported `events`, one after another.
pub open spec fn after(s: InstallationView, events: Seq<EventView>) -> InstallationView
    decreases events.len(),
{
    if events.len() == 0 {
        s
    } else {
        stepped(after(s, events.drop_last()), events.last())
    }
}

/// Whether every line of `manifest` is an entry.
pub open spec fn whole(manifest: Seq<Seq<char>>) -> bool {
    forall|i: int| 0 <= i < manifest.len() ==> (#[trigger] decoded(manifest[i])) is Some
}

/// What holds of every install on its way: the lines before the cursor are
/// entries, the line under it is one while it is to be staged, and no line is
/// left when the install is ready to commit or done.
pub open spec fn sound(s: InstallationView) -> bool {
    &&& s.cursor <= s.manifest.len()
    &&& forall|i: int| 0 <= i < s.cursor ==> (#[trigger] decoded(s.manifest[i])) is Some
    &&& s.phase is Staging ==> entry_at(s.manifest, s.cursor) is Some
    &&& s.phase is Committing || s.phase is Done ==> s.cursor == s.manifest.len()
}

/// Whether the install `s` is over, one way or the other.
pub open spec fn settled(s: InstallationView) -> bool {
    s.phase is Done || s.phase is Aborted
}

/// The report that the builder is open, and then `k` reports of a staged copy.
pub open spec fn staged(k: nat) -> Seq<EventView> {
    seq![EventView::BuilderOpened] + Seq::new(k, |i: int| EventView::Copied)
}

/// An install that has not begun is sound.
pub proof fn lemma_begun_sound(root: Seq<char>, requested: Seq<char>, component: Seq<char>)
    ensures
        sound(begun(root, requested, component)),
{
}

/// Soundness is kept whatever the driver reports, event by event.
pub proof fn lemma_sound_kept(s: InstallationView, events: Seq<EventView>)
    requires
        sound(s),
    ensures
        sound(after(s, events)),
    decreases events.len(),
{
    if events.len() > 0 {
        lemma_sound_kept(s, events.drop_last());
    }
}

/// Whatever the driver reports, an install asks for the commit, or says that
/// the component is installed, only if every line of its manifest is an entry
/// and has been dealt with.
pub proof fn lemma_commit_needs_whole_manifest(s: InstallationView, events: Seq<EventView>)
    requires
        sound(s),
    ensures
        ({
            let t = after(s, events);
            pending(t) is Finish || pending(t) is Installed ==> whole(t.manifest) && t.cursor
                == t.manifest.len()
        }),
{
    lemma_sound_kept(s, events);
}

/// Once the manifest is read it stays as it is, and the install does not go
/// back to reading it.
pub proof fn lemma_manifest_kept(s: InstallationView, events: Seq<EventView>)
    requires
        !(s.phase is ReadingManifest),
    ensures
        after(s, events).manifest == s.manifest,
        after(s, events).requested == s.requested,
        !(after(s, events).phase is ReadingManifest),
    decreases events.len(),
{
    if events.len() > 0 {
        lemma_manifest_kept(s, events.drop_last());
    }
}

/// An install whose manifest holds a line that is no entry never asks for the
/// commit and never says that the component is installed, whatever the driver
/// reports after the manifest's text.
pub proof fn lemma_bad_line_never_commits(
    root: Seq<char>,
    requested: Seq<char>,
    component: Seq<char>,
    text: Seq<char>,
    events: Seq<EventView>,
)
    requires
        !whole(lines(text)),
    ensures
        ({
            let t = after(
                begun(root, requested, component),
                seq![EventView::ManifestRead(text)] + events,
            );
            !(pending(t) is Finish) && !(pending(t) is Installed)
        }),
{
    let fresh = begun(root, requested, component);
    let first = seq![EventView::ManifestRead(text)];
    lemma_after_one(fresh, EventView::ManifestRead(text));
    lemma_after_both(fresh, first, events);
    lemma_manifest_kept(after(fresh, first), events);
    lemma_commit_needs_whole_manifest(after(fresh, first), events);
}

/// An install that is over stays as it is, whatever the driver reports: after
/// a failure nothing more is staged and nothing is committed.
pub proof fn lemma_settled_stays(s: InstallationView, events: Seq<EventView>)
    requires
        settled(s),
    ensures
        after(s, events) == s,
    decreases events.len(),
{
    if events.len() > 0 {
        lemma_settled_stays(s, events.drop_last());
    }
}

/// After a single report the install is one step on.
pub proof fn lemma_after_one(s: InstallationView, event: EventView)
    ensures
        after(s, seq![event]) == stepped(s, event),
{
    reveal_with_fuel(after, 2);
    assert(seq![event].drop_last() =~= Seq::empty());
}

/// Reporting `first` and then `then` is reporting the two in a row.
pub proof fn lemma_after_both(s: InstallationView, first: Seq<EventView>, then: Seq<EventView>)
    ensures
        after(s, first + then) == after(after(s, first), then),
    decreases then.len(),
{
    if then.len() == 0 {
        assert(first + then =~= first);
    } else {
        lemma_after_both(s, first, then.drop_last());
        assert((first + then).drop_last() =~= first + then.drop_last());
        assert((first + then).last() == then.last());
    }
}

/// With the builder open and the first `k` lines staged, all of them entries,
/// the install has turned to line `k`.
pub proof fn lemma_staged_reaches(s: InstallationView, k: nat)
    requires
        s.phase is OpeningBuilder,
        k <= s.manifest.len(),
        forall|i: int| 0 <= i < k ==> (#[trigger] decoded(s.manifest[i])) is Some,
    ensures
        after(s, staged(k)) == arrived(s, k),
    decreases k,
{
    let events = staged(k);
    if k == 0 {
        assert(events.drop_last() =~= Seq::empty());
        assert(after(s, events.drop_last()) == s);
    } else {
        let fewer = (k - 1) as nat;
        lemma_staged_reaches(s, fewer);
        assert(events.drop_last() =~= staged(fewer));
        assert(events.last() == EventView::Copied);
        assert(decoded(s.manifest[k - 1]) is Some);
    }
}

/// The reports of an install that goes well as far as its first `k` copies:
/// the text of the manifest, the open builder, `k` staged copies.
pub open spec fn smooth(text: Seq<char>, k: nat) -> Seq<EventView> {
    seq![EventView::ManifestRead(text)] + staged(k)
}

/// An install that goes well as far as its first `k` copies, the first `k`
/// lines of its manifest being entries, has turned to line `k`.
pub proof fn lemma_smooth_reaches(
    root: Seq<char>,
    requested: Seq<char>,
    component: Seq<char>,
    text: Seq<char>,
    k: nat,
)
    requires
        k <= lines(text).len(),
        forall|i: int| 0 <= i < k ==> (#[trigger] decoded(lines(text)[i])) is Some,
    ensures
        after(begun(root, requested, component), smooth(text, k)) == arrived(
            stepped(begun(root, requested, component), EventView::ManifestRead(text)),
            k,
        ),
{
    let fresh = begun(root, requested, component);
    let first = seq![EventView::ManifestRead(text)];
    lemma_after_one(fresh, EventView::ManifestRead(text));
    lemma_after_both(fresh, first, staged(k));
    lemma_staged_reaches(after(fresh, first), k);
}

/// Where every line of the manifest is an entry and every report is good, the
/// install asks for the copy of each entry in the order of the lines, a file
/// as a file and a directory as a directory, each from its path in the
/// component's directory; then for the commit; and then says that the
/// component is installed.
pub proof fn lemma_whole_manifest_installs(
    root: Seq<char>,
    requested: Seq<char>,
    component: Seq<char>,
    text: Seq<char>,
    k: nat,
)
    requires
        whole(lines(text)),
        k < lines(text).len(),
    ensures
        ({
            let part = decoded(lines(text)[k as int])->0;
            let source = SourceView { root, component, path: part.path };
            pending(after(begun(root, requested, component), smooth(text, k))) == match part.kind {
                ComponentKind::File => ActionView::CopyFile(source),
                ComponentKind::Dir => ActionView::CopyDir(source),
            }
        }),
        pending(after(begun(root, requested, component), smooth(text, lines(text).len())))
            == ActionView::Finish,
        pending(
            after(
                begun(root, requested, component),
                smooth(text, lines(text).len()).push(EventView::Finished),
            ),
        ) == ActionView::Installed,
{
    let n = lines(text).len();
    lemma_smooth_reaches(root, requested, component, text, k);
    lemma_smooth_reaches(root, requested, component, text, n);
    let events = smooth(text, n).push(EventView::Finished);
    assert(events.drop_last() =~= smooth(text, n));
    assert(events.last() == EventView::Finished);
}

/// Where line `k` of the manifest is the first that is no entry and every
/// report before it is good, the install fails as a corrupt component under
/// the name that was asked for, and stays so whatever is reported then.
pub proof fn lemma_first_bad_line_fails(
    root: Seq<char>,
    requested: Seq<char>,
    component: Seq<char>,
    text: Seq<char>,
    k: nat,
    more: Seq<EventView>,
)
    requires
        k < lines(text).len(),
        forall|i: int| 0 <= i < k ==> (#[trigger] decoded(lines(text)[i])) is Some,
        decoded(lines(text)[k as int]) is None,
    ensures
        pending(after(begun(root, requested, component), smooth(text, k) + more))
            == ActionView::Failed(ErrorView::CorruptComponent(requested)),
{
    let fresh = begun(root, requested, component);
    lemma_smooth_reaches(root, requested, component, text, k);
    lemma_after_both(fresh, smooth(text, k), more);
    lemma_settled_stays(after(fresh, smooth(text, k)), more);
}

/// A manifest that cannot be read fails the install as a corrupt component
/// under the name that was asked for, and it stays so.
pub proof fn lemma_unreadable_manifest_fails(
    root: Seq<char>,
    requested: Seq<char>,
    component: Seq<char>,
    more: Seq<EventView>,
)
    ensures
        pending(
            after(begun(root, requested, component), seq![EventView::ManifestUnreadable] + more),
        ) == ActionView::Failed(ErrorView::CorruptComponent(requested)),
{
    let fresh = begun(root, requested, component);
    let first = seq![EventView::ManifestUnreadable];
    lemma_after_one(fresh, EventView::ManifestUnreadable);
    lemma_after_both(fresh, first, more);
    lemma_settled_stays(after(fresh, first), more);
}

/// A copy that the builder could not stage fails the install, and it stays
/// failed: no commit is asked for after it.
pub proof fn lemma_failed_copy_fails(s: InstallationView, more: Seq<EventView>)
    requires
        s.phase is Staging,
    ensures
        pending(after(stepped(s, EventView::CopyFailed), more)) == ActionView::Failed(
            ErrorView::Staging,
        ),
{
    lemma_settled_stays(stepped(s, EventView::CopyFailed), more);
}

} // verus!
