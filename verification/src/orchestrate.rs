//! The stack orchestrator as an explicit state machine. Each plan entry
//! becomes a short dialogue with the two collaborators: the machine names
//! the next request (`Cmd`), the caller performs it and hands back what
//! happened (`Event`), and the machine answers with the next request, a
//! finished `ProcessedPr` plus the new chain cursor, or a fatal stop. All
//! decisions live here; the caller only relays.

use vstd::prelude::*;
use vstd::string::*;

use crate::plan::{Action, StackEntry, EntryV};

verus! {

/// One pull request the orchestrator produced or reused, in stack order.
#[derive(Clone, Debug)]
pub struct ProcessedPr {
    pub pr_url: String,
    pub pr_title: String,
}

/// The mathematical value of a `ProcessedPr`.
pub struct ProcessedPrV {
    pub pr_url: Seq<char>,
    pub pr_title: Seq<char>,
}

impl View for ProcessedPr {
    type V = ProcessedPrV;

    open spec fn view(&self) -> ProcessedPrV {
        ProcessedPrV { pr_url: self.pr_url@, pr_title: self.pr_title@ }
    }
}

/// The views of a sequence of processed PRs.
pub open spec fn pr_views(ps: Seq<ProcessedPr>) -> Seq<ProcessedPrV> {
    ps.map_values(|p: ProcessedPr| p@)
}

/// A request to one of the two collaborators.
#[derive(Clone, Debug)]
pub enum Cmd {
    /// Ask the hosting service whether a PR with this head exists.
    QueryPrExists { head: String },
    /// Ask the hosting service for the URL and title of the PR with this
    /// head.
    QueryPrInfo { head: String },
    /// Publish a bookmark to the remote; fails when it does not exist
    /// locally.
    PushBookmark { name: String },
    /// Create a bookmark at a change.
    CreateBookmarkAt { change_id: String, name: String },
    /// Publish a change directly, letting the tool generate a head name.
    PushChangeAutoBookmark { change_id: String },
    /// Open a PR with the given head, base and title (and an empty body).
    CreatePr { head: String, base: String, title: String },
}

/// The mathematical value of a `Cmd`.
pub enum CmdV {
    QueryPrExists { head: Seq<char> },
    QueryPrInfo { head: Seq<char> },
    PushBookmark { name: Seq<char> },
    CreateBookmarkAt { change_id: Seq<char>, name: Seq<char> },
    PushChangeAutoBookmark { change_id: Seq<char> },
    CreatePr { head: Seq<char>, base: Seq<char>, title: Seq<char> },
}

impl View for Cmd {
    type V = CmdV;

    open spec fn view(&self) -> CmdV {
        match self {
            Cmd::QueryPrExists { head } => CmdV::QueryPrExists { head: head@ },
            Cmd::QueryPrInfo { head } => CmdV::QueryPrInfo { head: head@ },
            Cmd::PushBookmark { name } => CmdV::PushBookmark { name: name@ },
            Cmd::CreateBookmarkAt { change_id, name } => CmdV::CreateBookmarkAt {
                change_id: change_id@,
                name: name@,
            },
            Cmd::PushChangeAutoBookmark { change_id } => CmdV::PushChangeAutoBookmark {
                change_id: change_id@,
            },
            Cmd::CreatePr { head, base, title } => CmdV::CreatePr {
                head: head@,
                base: base@,
                title: title@,
            },
        }
    }
}

/// What a performed request came back with.
#[derive(Clone, Debug)]
pub enum Event {
    /// Whether a PR with the queried head exists.
    PrExists(bool),
    /// URL and title of the queried PR.
    PrInfo { url: String, title: String },
    /// Whether publishing succeeded; failure means the bookmark does not
    /// exist locally.
    Pushed(bool),
    /// The bookmark was created.
    BookmarkCreated,
    /// The head name the tool generated for a directly published change.
    AutoName(String),
    /// The PR was opened at this URL.
    PrCreated { url: String },
}

/// The mathematical value of an `Event`.
pub enum EventV {
    PrExists(bool),
    PrInfo { url: Seq<char>, title: Seq<char> },
    Pushed(bool),
    BookmarkCreated,
    AutoName(Seq<char>),
    PrCreated { url: Seq<char> },
}

impl View for Event {
    type V = EventV;

    open spec fn view(&self) -> EventV {
        match self {
            Event::PrExists(b) => EventV::PrExists(*b),
            Event::PrInfo { url, title } => EventV::PrInfo { url: url@, title: title@ },
            Event::Pushed(b) => EventV::Pushed(*b),
            Event::BookmarkCreated => EventV::BookmarkCreated,
            Event::AutoName(n) => EventV::AutoName(n@),
            Event::PrCreated { url } => EventV::PrCreated { url: url@ },
        }
    }
}

/// Where the machine stands within one entry's dialogue.
#[derive(Clone, Copy, Debug, PartialEq, Eq, Structural)]
pub enum Phase {
    /// Asked whether a PR for the named bookmark exists.
    AwaitPrExists,
    /// The PR exists; asked for its URL and title to reuse it.
    AwaitPrInfo,
    /// Publishing the named bookmark; failure means it must be created
    /// first.
    AwaitProbePush,
    /// Creating the bookmark at its change.
    AwaitCreate,
    /// Publishing a bookmark that was just created; failure is fatal.
    AwaitStrictPush,
    /// Publishing the change directly; waiting for the generated name.
    AwaitAutoName,
    /// Opening the PR; waiting for its URL.
    AwaitPrCreated,
}

/// The in-flight state for one entry.
#[derive(Clone, Debug)]
pub struct EntryMachine {
    pub phase: Phase,
    pub change_id: String,
    pub description: String,
    /// The head name, once known; absent only while waiting for a
    /// generated one.
    pub head: Option<String>,
    /// The base branch this entry's PR is opened against.
    pub base: String,
}

/// The mathematical value of an `EntryMachine`.
pub struct MachineV {
    pub phase: Phase,
    pub change_id: Seq<char>,
    pub description: Seq<char>,
    pub head: Option<Seq<char>>,
    pub base: Seq<char>,
}

impl View for EntryMachine {
    type V = MachineV;

    open spec fn view(&self) -> MachineV {
        MachineV {
            phase: self.phase,
            change_id: self.change_id@,
            description: self.description@,
            head: match self.head {
                Some(h) => Some(h@),
                None => None,
            },
            base: self.base@,
        }
    }
}

/// The head name the machine has settled on, or empty while none is
/// known.
pub open spec fn head_of(m: MachineV) -> Seq<char> {
    match m.head {
        Some(h) => h,
        None => Seq::empty(),
    }
}

/// How an entry's dialogue opens.
pub enum BeginV {
    /// A `Skip` entry: nothing to do, the cursor is unchanged.
    Skipped,
    /// A `CreateBookmark` entry without a bookmark name: a configuration
    /// error that aborts the run.
    MissingBookmark,
    /// The dialogue starts with this state and first request.
    Run(MachineV, CmdV),
}

/// Exec counterpart of `BeginV`.
pub enum Begin {
    Skipped,
    MissingBookmark,
    Run(EntryMachine, Cmd),
}

impl View for Begin {
    type V = BeginV;

    open spec fn view(&self) -> BeginV {
        match self {
            Begin::Skipped => BeginV::Skipped,
            Begin::MissingBookmark => BeginV::MissingBookmark,
            Begin::Run(m, c) => BeginV::Run(m@, c@),
        }
    }
}

/// One answer of the machine to an event.
pub enum StepV {
    /// The dialogue continues with this state and request.
    Next(MachineV, CmdV),
    /// The entry is finished: the PR it yielded, and the head name that
    /// becomes the next entry's base.
    Done(ProcessedPrV, Seq<char>),
    /// No recovery exists (a freshly created bookmark failed to publish,
    /// or the event does not answer the pending request): abort the run.
    Fatal,
}

/// Exec counterpart of `StepV`.
pub enum Step {
    Next(EntryMachine, Cmd),
    Done(ProcessedPr, String),
    Fatal,
}

impl View for Step {
    type V = StepV;

    open spec fn view(&self) -> StepV {
        match self {
            Step::Next(m, c) => StepV::Next(m@, c@),
            Step::Done(p, cur) => StepV::Done(p@, cur@),
            Step::Fatal => StepV::Fatal,
        }
    }
}

/// How an entry's dialogue opens: `Skip` does nothing; `CreateBookmark`
/// demands a bookmark name and starts by creating it; `CreatePr` with a
/// bookmark first asks whether its PR already exists (the idempotent
/// path), and without one starts by publishing the change for a
/// generated name. The base is the current cursor, or the trunk when the
/// cursor is unset.
pub open spec fn spec_begin_entry(e: EntryV, cursor: Option<Seq<char>>, trunk: Seq<char>) -> BeginV {
    let base = match cursor {
        Some(b) => b,
        None => trunk,
    };
    match e.action {
        Action::Skip => BeginV::Skipped,
        Action::CreateBookmark => match e.bookmark {
            None => BeginV::MissingBookmark,
            Some(b) => BeginV::Run(
                MachineV {
                    phase: Phase::AwaitCreate,
                    change_id: e.change_id,
                    description: e.description,
                    head: Some(b),
                    base,
                },
                CmdV::CreateBookmarkAt { change_id: e.change_id, name: b },
            ),
        },
        Action::CreatePr => match e.bookmark {
            Some(b) => BeginV::Run(
                MachineV {
                    phase: Phase::AwaitPrExists,
                    change_id: e.change_id,
                    description: e.description,
                    head: Some(b),
                    base,
                },
                CmdV::QueryPrExists { head: b },
            ),
            None => BeginV::Run(
                MachineV {
                    phase: Phase::AwaitAutoName,
                    change_id: e.change_id,
                    description: e.description,
                    head: None,
                    base,
                },
                CmdV::PushChangeAutoBookmark { change_id: e.change_id },
            ),
        },
    }
}

/// The transition relation of one entry's dialogue. An existing PR is
/// reused verbatim, with no create request. A missing PR leads through
/// publishing (and, if the bookmark is absent locally, creating) the
/// bookmark to one create request. An entry without a bookmark takes the
/// generated head name. Any event that does not answer the pending
/// request is fatal.
pub open spec fn spec_entry_step(m: MachineV, ev: EventV) -> StepV {
    match m.phase {
        Phase::AwaitPrExists => match ev {
            EventV::PrExists(true) => StepV::Next(
                MachineV { phase: Phase::AwaitPrInfo, ..m },
                CmdV::QueryPrInfo { head: head_of(m) },
            ),
            EventV::PrExists(false) => StepV::Next(
                MachineV { phase: Phase::AwaitProbePush, ..m },
                CmdV::PushBookmark { name: head_of(m) },
            ),
            _ => StepV::Fatal,
        },
        Phase::AwaitPrInfo => match ev {
            EventV::PrInfo { url, title } => StepV::Done(
                ProcessedPrV { pr_url: url, pr_title: title },
                head_of(m),
            ),
            _ => StepV::Fatal,
        },
        Phase::AwaitProbePush => match ev {
            EventV::Pushed(true) => StepV::Next(
                MachineV { phase: Phase::AwaitPrCreated, ..m },
                CmdV::CreatePr { head: head_of(m), base: m.base, title: m.description },
            ),
            EventV::Pushed(false) => StepV::Next(
                MachineV { phase: Phase::AwaitCreate, ..m },
                CmdV::CreateBookmarkAt { change_id: m.change_id, name: head_of(m) },
            ),
            _ => StepV::Fatal,
        },
        Phase::AwaitCreate => match ev {
            EventV::BookmarkCreated => StepV::Next(
                MachineV { phase: Phase::AwaitStrictPush, ..m },
                CmdV::PushBookmark { name: head_of(m) },
            ),
            _ => StepV::Fatal,
        },
        Phase::AwaitStrictPush => match ev {
            EventV::Pushed(true) => StepV::Next(
                MachineV { phase: Phase::AwaitPrCreated, ..m },
                CmdV::CreatePr { head: head_of(m), base: m.base, title: m.description },
            ),
            EventV::Pushed(false) => StepV::Fatal,
            _ => StepV::Fatal,
        },
        Phase::AwaitAutoName => match ev {
            EventV::AutoName(name) => StepV::Next(
                MachineV { phase: Phase::AwaitPrCreated, head: Some(name), ..m },
                CmdV::CreatePr { head: name, base: m.base, title: m.description },
            ),
            _ => StepV::Fatal,
        },
        Phase::AwaitPrCreated => match ev {
            EventV::PrCreated { url } => StepV::Done(
                ProcessedPrV { pr_url: url, pr_title: m.description },
                head_of(m),
            ),
            _ => StepV::Fatal,
        },
    }
}

/// Opens one entry's dialogue; see `spec_begin_entry`.
pub fn begin_entry(e: &StackEntry, cursor: &Option<String>, trunk: &str) -> (r: Begin)
    ensures
        r@ == spec_begin_entry(
            e@,
            match cursor {
                Some(b) => Some(b@),
                None => None::<Seq<char>>,
            },
            trunk@,
        ),
{
    let base: String = match cursor {
        Some(b) => b.clone(),
        None => String::from_str(trunk),
    };
    match e.action {
        Action::Skip => Begin::Skipped,
        Action::CreateBookmark => match &e.bookmark {
            None => Begin::MissingBookmark,
            Some(b) => Begin::Run(
                EntryMachine {
                    phase: Phase::AwaitCreate,
                    change_id: e.change_id.clone(),
                    description: e.description.clone(),
                    head: Some(b.clone()),
                    base,
                },
                Cmd::CreateBookmarkAt { change_id: e.change_id.clone(), name: b.clone() },
            ),
        },
        Action::CreatePr => match &e.bookmark {
            Some(b) => Begin::Run(
                EntryMachine {
                    phase: Phase::AwaitPrExists,
                    change_id: e.change_id.clone(),
                    description: e.description.clone(),
                    head: Some(b.clone()),
                    base,
                },
                Cmd::QueryPrExists { head: b.clone() },
            ),
            None => Begin::Run(
                EntryMachine {
                    phase: Phase::AwaitAutoName,
                    change_id: e.change_id.clone(),
                    description: e.description.clone(),
                    head: None,
                    base,
                },
                Cmd::PushChangeAutoBookmark { change_id: e.change_id.clone() },
            ),
        },
    }
}

/// The head the machine has settled on, or the empty string.
fn head_string(m: &EntryMachine) -> (r: String)
    ensures
        r@ == head_of(m@),
{
    match &m.head {
        Some(h) => h.clone(),
        None => String::new(),
    }
}

/// Answers one event; see `spec_entry_step`.
pub fn entry_step(m: EntryMachine, ev: Event) -> (r: Step)
    ensures
        r@ == spec_entry_step(m@, ev@),
{
    match m.phase {
        Phase::AwaitPrExists => match ev {
            Event::PrExists(true) => {
                let head = head_string(&m);
                Step::Next(
                    EntryMachine { phase: Phase::AwaitPrInfo, ..m },
                    Cmd::QueryPrInfo { head },
                )
            },
            Event::PrExists(false) => {
                let name = head_string(&m);
                Step::Next(
                    EntryMachine { phase: Phase::AwaitProbePush, ..m },
                    Cmd::PushBookmark { name },
                )
            },
            _ => Step::Fatal,
        },
        Phase::AwaitPrInfo => match ev {
            Event::PrInfo { url, title } => {
                let cur = head_string(&m);
                Step::Done(ProcessedPr { pr_url: url, pr_title: title }, cur)
            },
            _ => Step::Fatal,
        },
        Phase::AwaitProbePush => match ev {
            Event::Pushed(true) => {
                let head = head_string(&m);
                let base = m.base.clone();
                let title = m.description.clone();
                Step::Next(
                    EntryMachine { phase: Phase::AwaitPrCreated, ..m },
                    Cmd::CreatePr { head, base, title },
                )
            },
            Event::Pushed(false) => {
                let name = head_string(&m);
                let change_id = m.change_id.clone();
                Step::Next(
                    EntryMachine { phase: Phase::AwaitCreate, ..m },
                    Cmd::CreateBookmarkAt { change_id, name },
                )
            },
            _ => Step::Fatal,
        },
        Phase::AwaitCreate => match ev {
            Event::BookmarkCreated => {
                let name = head_string(&m);
                Step::Next(
                    EntryMachine { phase: Phase::AwaitStrictPush, ..m },
                    Cmd::PushBookmark { name },
                )
            },
            _ => Step::Fatal,
        },
        Phase::AwaitStrictPush => match ev {
            Event::Pushed(true) => {
                let head = head_string(&m);
                let base = m.base.clone();
                let title = m.description.clone();
                Step::Next(
                    EntryMachine { phase: Phase::AwaitPrCreated, ..m },
                    Cmd::CreatePr { head, base, title },
                )
            },
            _ => Step::Fatal,
        },
        Phase::AwaitAutoName => match ev {
            Event::AutoName(name) => {
                let base = m.base.clone();
                let title = m.description.clone();
                let head = name.clone();
                Step::Next(
                    EntryMachine { phase: Phase::AwaitPrCreated, head: Some(name), ..m },
                    Cmd::CreatePr { head, base, title },
                )
            },
            _ => Step::Fatal,
        },
        Phase::AwaitPrCreated => match ev {
            Event::PrCreated { url } => {
                let cur = head_string(&m);
                let title = m.description.clone();
                Step::Done(ProcessedPr { pr_url: url, pr_title: title }, cur)
            },
            _ => Step::Fatal,
        },
    }
}

/// A model of what the two collaborators hold between runs: the open PRs
/// by head name, the bookmarks that exist locally, and — for requests
/// whose answers the collaborators invent — the generated head name per
/// change and the minted URL per head.
pub struct SpecWorld {
    pub prs: Map<Seq<char>, ProcessedPrV>,
    pub locals: Set<Seq<char>>,
    pub auto_names: Map<Seq<char>, Seq<char>>,
    pub new_urls: Map<Seq<char>, Seq<char>>,
}

/// The event a request comes back with in a given world.
pub open spec fn world_event(w: SpecWorld, c: CmdV) -> EventV {
    match c {
        CmdV::QueryPrExists { head } => EventV::PrExists(w.prs.contains_key(head)),
        CmdV::QueryPrInfo { head } => EventV::PrInfo {
            url: w.prs[head].pr_url,
            title: w.prs[head].pr_title,
        },
        CmdV::PushBookmark { name } => EventV::Pushed(w.locals.contains(name)),
        CmdV::CreateBookmarkAt { change_id: _, name: _ } => EventV::BookmarkCreated,
        CmdV::PushChangeAutoBookmark { change_id } => EventV::AutoName(w.auto_names[change_id]),
        CmdV::CreatePr { head, base: _, title: _ } => EventV::PrCreated {
            url: w.new_urls[head],
        },
    }
}

/// What performing a request leaves behind in the world.
pub open spec fn world_apply(w: SpecWorld, c: CmdV) -> SpecWorld {
    match c {
        CmdV::CreateBookmarkAt { change_id: _, name } => SpecWorld {
            locals: w.locals.insert(name),
            ..w
        },
        CmdV::PushChangeAutoBookmark { change_id } => SpecWorld {
            locals: w.locals.insert(w.auto_names[change_id]),
            ..w
        },
        CmdV::CreatePr { head, base: _, title } => SpecWorld {
            prs: w.prs.insert(head, ProcessedPrV { pr_url: w.new_urls[head], pr_title: title }),
            ..w
        },
        _ => w,
    }
}

/// How one entry's dialogue ends.
pub enum EntryOutcome {
    /// A `Skip` entry: the cursor is unchanged.
    Skipped,
    /// A configuration error: the entry demands a bookmark it lacks.
    Config,
    /// A fatal stop.
    Fatal,
    /// The PR this entry yielded and the head that becomes the next base.
    Did(ProcessedPrV, Seq<char>),
}

/// One entry's dialogue, played out against a world.
pub struct EntryRun {
    pub outcome: EntryOutcome,
    pub world: SpecWorld,
    /// How many create-PR requests the dialogue issued.
    pub creates: nat,
}

/// Plays the machine against the world: the pending request is performed,
/// its event fed back, and so on until the entry is done or fatal. The
/// fuel is an upper bound on the dialogue's length, which never exceeds
/// five requests.
pub open spec fn run_machine(w: SpecWorld, m: MachineV, c: CmdV, fuel: nat) -> EntryRun
    decreases fuel,
{
    let ev = world_event(w, c);
    let w2 = world_apply(w, c);
    let created: nat = if c is CreatePr {
        1
    } else {
        0
    };
    if fuel == 0 {
        EntryRun { outcome: EntryOutcome::Fatal, world: w2, creates: created }
    } else {
        match spec_entry_step(m, ev) {
            StepV::Done(pr, cur) => EntryRun {
                outcome: EntryOutcome::Did(pr, cur),
                world: w2,
                creates: created,
            },
            StepV::Fatal => EntryRun { outcome: EntryOutcome::Fatal, world: w2, creates: created },
            StepV::Next(m2, c2) => {
                let rest = run_machine(w2, m2, c2, (fuel - 1) as nat);
                EntryRun {
                    outcome: rest.outcome,
                    world: rest.world,
                    creates: created + rest.creates,
                }
            },
        }
    }
}

/// One whole entry against a world.
pub open spec fn run_entry(
    w: SpecWorld,
    trunk: Seq<char>,
    cursor: Option<Seq<char>>,
    e: EntryV,
) -> EntryRun {
    match spec_begin_entry(e, cursor, trunk) {
        BeginV::Skipped => EntryRun { outcome: EntryOutcome::Skipped, world: w, creates: 0 },
        BeginV::MissingBookmark => EntryRun {
            outcome: EntryOutcome::Config,
            world: w,
            creates: 0,
        },
        BeginV::Run(m, c) => run_machine(w, m, c, 8),
    }
}

/// A whole run of the orchestrator against a world.
pub struct StackRun {
    /// The PRs produced or reused, in stack order.
    pub prs: Seq<ProcessedPrV>,
    /// The chain cursor after each surviving entry, in order.
    pub cursors: Seq<Option<Seq<char>>>,
    /// The final cursor.
    pub cursor: Option<Seq<char>>,
    pub world: SpecWorld,
    /// How many create-PR requests the whole run issued.
    pub creates: nat,
    /// Whether the run reached the end of the plan; a configuration
    /// error or fatal stop aborts it where it stands.
    pub ok: bool,
}

/// Runs the orchestrator over the entries in order, threading the cursor
/// and the world, aborting at the first failure.
pub open spec fn run_stack(
    w: SpecWorld,
    trunk: Seq<char>,
    cursor: Option<Seq<char>>,
    entries: Seq<EntryV>,
) -> StackRun
    decreases entries.len(),
{
    if entries.len() == 0 {
        StackRun {
            prs: Seq::empty(),
            cursors: Seq::empty(),
            cursor,
            world: w,
            creates: 0,
            ok: true,
        }
    } else {
        let r0 = run_entry(w, trunk, cursor, entries.first());
        match r0.outcome {
            EntryOutcome::Skipped => {
                let rest = run_stack(r0.world, trunk, cursor, entries.drop_first());
                StackRun {
                    prs: rest.prs,
                    cursors: seq![cursor] + rest.cursors,
                    cursor: rest.cursor,
                    world: rest.world,
                    creates: r0.creates + rest.creates,
                    ok: rest.ok,
                }
            },
            EntryOutcome::Did(pr, newcur) => {
                let rest = run_stack(r0.world, trunk, Some(newcur), entries.drop_first());
                StackRun {
                    prs: seq![pr] + rest.prs,
                    cursors: seq![Some(newcur)] + rest.cursors,
                    cursor: rest.cursor,
                    world: rest.world,
                    creates: r0.creates + rest.creates,
                    ok: rest.ok,
                }
            },
            EntryOutcome::Config => StackRun {
                prs: Seq::empty(),
                cursors: Seq::empty(),
                cursor,
                world: r0.world,
                creates: r0.creates,
                ok: false,
            },
            EntryOutcome::Fatal => StackRun {
                prs: Seq::empty(),
                cursors: Seq::empty(),
                cursor,
                world: r0.world,
                creates: r0.creates,
                ok: false,
            },
        }
    }
}

/// An entry the idempotent path will reuse without side effects: a skip,
/// or a create-PR entry whose bookmark already has an open PR.
pub open spec fn reuse_ready(w: SpecWorld, e: EntryV) -> bool {
    match e.action {
        Action::Skip => true,
        Action::CreateBookmark => false,
        Action::CreatePr => match e.bookmark {
            Some(b) => w.prs.contains_key(b),
            None => false,
        },
    }
}

/// A reuse-ready create-PR entry resolves by lookup alone: it yields the
/// existing PR's URL and title verbatim, moves the cursor to its
/// bookmark, issues no create request and leaves the world unchanged.
pub proof fn lemma_entry_reuses(
    w: SpecWorld,
    trunk: Seq<char>,
    cursor: Option<Seq<char>>,
    e: EntryV,
)
    requires
        e.action is CreatePr,
        reuse_ready(w, e),
    ensures
        ({
            let b = match e.bookmark {
                Some(b) => b,
                None => Seq::<char>::empty(),
            };
            run_entry(w, trunk, cursor, e) == EntryRun {
                outcome: EntryOutcome::Did(w.prs[b], b),
                world: w,
                creates: 0,
            }
        }),
{
    reveal_with_fuel(run_machine, 4);
}

/// Idempotence of the orchestrator: on a plan whose entries are all
/// skips or create-PR entries whose bookmarks already have PRs, a run
/// issues no create-PR request, leaves the collaborators' state exactly
/// as it found it, and completes; hence a second run over the same plan
/// returns the identical PR list and cursor chain.
pub proof fn lemma_orchestrator_idempotent(
    w: SpecWorld,
    trunk: Seq<char>,
    cursor: Option<Seq<char>>,
    entries: Seq<EntryV>,
)
    requires
        forall|i: int| 0 <= i < entries.len() ==> reuse_ready(w, #[trigger] entries[i]),
    ensures
        run_stack(w, trunk, cursor, entries).creates == 0,
        run_stack(w, trunk, cursor, entries).world == w,
        run_stack(w, trunk, cursor, entries).ok,
        run_stack(run_stack(w, trunk, cursor, entries).world, trunk, cursor, entries) == run_stack(
            w,
            trunk,
            cursor,
            entries,
        ),
    decreases entries.len(),
{
    if entries.len() > 0 {
        let e = entries.first();
        assert(reuse_ready(w, e));
        assert(forall|i: int|
            0 <= i < entries.drop_first().len() ==> entries.drop_first()[i] == entries[i + 1]);
        match e.action {
            Action::Skip => {
                lemma_orchestrator_idempotent(w, trunk, cursor, entries.drop_first());
            },
            Action::CreatePr => {
                lemma_entry_reuses(w, trunk, cursor, e);
                let b = match e.bookmark {
                    Some(b) => b,
                    None => Seq::<char>::empty(),
                };
                lemma_orchestrator_idempotent(w, trunk, Some(b), entries.drop_first());
            },
            Action::CreateBookmark => {
                assert(false);
            },
        }
    }
}

} // verus!
