//! The run as a whole, as a state machine.
//!
//! A run resolves the configured devices, finds the target mode, starts the
//! tablet commands before the devices are unbound or the laptop commands after
//! they are bound, and is done. Each step of it is one call of [`Run::step`]:
//! the caller hands in what it observed and gets back what to carry out.

use vstd::prelude::*;
use vstd::string::*;
use crate::executor::{
    dispatch, optional_text, smart_execute, Invocation, InvocationView, PrivilegeContext,
    PrivilegeContextView, SpawnError,
};
use crate::mode::{target_mode, target_of, Mode, TargetError};
use crate::resolver::{
    directory_to_list, directory_to_list_text, expand_wildcards, resolution, ResolutionError,
    ResolutionErrorView,
};
use crate::switcher::{
    planned_outcome, planned_requests, requests_of, switch_devices, SwitchAction, WriteRequest,
    WriteRequestView,
};
use crate::text::texts_of;

verus! {

/// What a run works on: device patterns, and the commands of each mode in the
/// order in which they are to be started.
#[derive(Debug, PartialEq, Eq)]
pub struct Config {
    pub devices: Vec<String>,
    pub laptop_commands: Vec<String>,
    pub tablet_commands: Vec<String>,
}

/// A configuration as a mathematical value.
pub struct ConfigView {
    pub devices: Seq<Seq<char>>,
    pub laptop_commands: Seq<Seq<char>>,
    pub tablet_commands: Seq<Seq<char>>,
}

impl View for Config {
    type V = ConfigView;

    open spec fn view(&self) -> ConfigView {
        ConfigView {
            devices: texts_of(self.devices@),
            laptop_commands: texts_of(self.laptop_commands@),
            tablet_commands: texts_of(self.tablet_commands@),
        }
    }
}

impl Config {
    /// The configuration without devices and without commands: what a run
    /// falls back to where none can be read.
    pub fn empty() -> (r: Config)
        ensures
            r@.devices.len() == 0,
            r@.laptop_commands.len() == 0,
            r@.tablet_commands.len() == 0,
    {
        Config { devices: Vec::new(), laptop_commands: Vec::new(), tablet_commands: Vec::new() }
    }
}

/// Why a run was given up.
#[derive(Debug, Clone, Copy, PartialEq, Eq, Structural)]
pub enum AbortReason {
    /// The wanted mode is no mode.
    InvalidMode,
    /// A device is not of the shape `/sys/bus/{bus}/drivers/{driver}/{device}`.
    InvalidDevice,
}

/// How far a run has come.
#[derive(Debug, Clone, Copy, PartialEq, Eq, Structural)]
pub enum Phase {
    Idle,
    DevicesResolved,
    ModeDetermined,
    PreCommandsRun,
    DevicesSwitched,
    PostCommandsRun,
    Done,
    Aborted(AbortReason),
}

impl Phase {
    /// Nothing follows this phase.
    pub open spec fn is_final(self) -> bool {
        self == Phase::Done || self is Aborted
    }
}

/// What the caller observed.
#[derive(Debug, PartialEq, Eq)]
pub enum Event {
    /// For each configured pattern, in order, the names in the device
    /// directory of its bus, or nothing where the directory was not read.
    Listings(Vec<Option<Vec<String>>>),
    /// The wanted mode, empty where none was named, and whether the path of
    /// the first resolved device exists.
    ModeInput { wanted: String, first_present: bool },
    /// The effects of the last step were carried out.
    Proceed,
}

/// An event as a mathematical value.
pub enum EventView {
    Listings(Seq<Option<Seq<Seq<char>>>>),
    ModeInput { wanted: Seq<char>, first_present: bool },
    Proceed,
}

/// The view of one listing.
pub open spec fn listing_of(listing: Option<Vec<String>>) -> Option<Seq<Seq<char>>> {
    match listing {
        Some(names) => Some(texts_of(names@)),
        None => None,
    }
}

impl View for Event {
    type V = EventView;

    open spec fn view(&self) -> EventView {
        match self {
            Event::Listings(listings) => EventView::Listings(listings_of(listings@)),
            Event::ModeInput { wanted, first_present } => EventView::ModeInput {
                wanted: wanted@,
                first_present: *first_present,
            },
            Event::Proceed => EventView::Proceed,
        }
    }
}

/// What the caller is to carry out.
#[derive(Debug, PartialEq, Eq)]
pub enum Effect {
    /// Tell that this pattern was dropped from the devices, and why.
    Dropped { pattern: String, error: ResolutionError },
    /// Tell that this command could not be started, and why.
    CommandFailed { command: String, failure: SpawnError },
    /// Start this process and do not wait for it.
    Spawn(Invocation),
    /// Show the notice of this request, then make its write.
    Write(WriteRequest),
}

/// An effect as a mathematical value.
pub enum EffectView {
    Dropped { pattern: Seq<char>, error: ResolutionErrorView },
    CommandFailed { command: Seq<char>, failure: SpawnError },
    Spawn(InvocationView),
    Write(WriteRequestView),
}

impl View for Effect {
    type V = EffectView;

    open spec fn view(&self) -> EffectView {
        match self {
            Effect::Dropped { pattern, error } => EffectView::Dropped {
                pattern: pattern@,
                error: error@,
            },
            Effect::CommandFailed { command, failure } => EffectView::CommandFailed {
                command: command@,
                failure: *failure,
            },
            Effect::Spawn(invocation) => EffectView::Spawn(invocation@),
            Effect::Write(request) => EffectView::Write(request@),
        }
    }
}

/// The views of the effects in `v`.
pub open spec fn effects_of(v: Seq<Effect>) -> Seq<EffectView> {
    v.map_values(|e: Effect| e@)
}

/// The listing that belongs to the pattern at offset `i`; a pattern without
/// one counts as not listed.
pub open spec fn listing_at(listings: Seq<Option<Seq<Seq<char>>>>, i: int) -> Option<
    Seq<Seq<char>>,
> {
    if 0 <= i < listings.len() {
        listings[i]
    } else {
        None
    }
}

/// The devices that the first `n` patterns resolve to, in order. A pattern
/// that does not resolve leaves none.
pub open spec fn resolved_devices(
    patterns: Seq<Seq<char>>,
    listings: Seq<Option<Seq<Seq<char>>>>,
    n: int,
) -> Seq<Seq<char>>
    decreases n,
{
    if n <= 0 {
        Seq::empty()
    } else {
        let before = resolved_devices(patterns, listings, n - 1);
        match resolution(patterns[n - 1], listing_at(listings, n - 1)) {
            Ok(device) => before.push(device),
            Err(_) => before,
        }
    }
}

/// One effect for each of the first `n` patterns that does not resolve, in
/// order.
pub open spec fn dropped_patterns(
    patterns: Seq<Seq<char>>,
    listings: Seq<Option<Seq<Seq<char>>>>,
    n: int,
) -> Seq<EffectView>
    decreases n,
{
    if n <= 0 {
        Seq::empty()
    } else {
        let before = dropped_patterns(patterns, listings, n - 1);
        match resolution(patterns[n - 1], listing_at(listings, n - 1)) {
            Ok(_) => before,
            Err(error) => before.push(EffectView::Dropped { pattern: patterns[n - 1], error }),
        }
    }
}

/// What starting `command` comes to: the process to spawn, or the failure to
/// tell.
pub open spec fn command_effect(command: Seq<char>, context: PrivilegeContextView) -> EffectView {
    match dispatch(command, context) {
        Ok(invocation) => EffectView::Spawn(invocation),
        Err(failure) => EffectView::CommandFailed { command, failure },
    }
}

/// One effect for each of `commands`, in order.
pub open spec fn command_effects(commands: Seq<Seq<char>>, context: PrivilegeContextView) -> Seq<
    EffectView,
> {
    commands.map_values(|command: Seq<char>| command_effect(command, context))
}

/// One write effect for each of `requests`, in order.
pub open spec fn write_effects(requests: Seq<WriteRequestView>) -> Seq<EffectView> {
    requests.map_values(|r: WriteRequestView| EffectView::Write(r))
}

/// The action that brings the devices into `mode`.
pub open spec fn action_for(mode: Mode) -> SwitchAction {
    match mode {
        Mode::Laptop => SwitchAction::Bind,
        Mode::Tablet => SwitchAction::Unbind,
    }
}

/// The reason that a failed search for the target mode gives up the run with.
pub open spec fn abort_reason(error: TargetError) -> AbortReason {
    match error {
        TargetError::Mode(_) => AbortReason::InvalidMode,
        TargetError::Shape(_) => AbortReason::InvalidDevice,
    }
}

/// A run as a mathematical value.
pub struct RunView {
    pub config: ConfigView,
    pub context: PrivilegeContextView,
    pub phase: Phase,
    pub devices: Seq<Seq<char>>,
    pub target: Option<Mode>,
}

/// A step of a run: the run after it, and what it asks to be carried out.
pub struct Transition {
    pub run: RunView,
    pub effects: Seq<EffectView>,
}

/// The step that changes nothing and asks for nothing.
pub open spec fn stay(pre: RunView) -> Transition {
    Transition { run: pre, effects: Seq::empty() }
}

/// The step that `pre` takes on `event`.
///
/// Each phase waits for one kind of event. An event that the phase does not
/// wait for changes nothing and asks for nothing; so does any event once the
/// run is done or given up.
pub open spec fn next(pre: RunView, event: EventView) -> Transition {
    match (pre.phase, event, pre.target) {
        (Phase::Idle, EventView::Listings(listings), _) => {
            let n = pre.config.devices.len() as int;
            Transition {
                run: RunView {
                    phase: Phase::DevicesResolved,
                    devices: resolved_devices(pre.config.devices, listings, n),
                    ..pre
                },
                effects: dropped_patterns(pre.config.devices, listings, n),
            }
        },
        (Phase::DevicesResolved, EventView::ModeInput { wanted, first_present }, _) => {
            match target_of(wanted, pre.devices, first_present) {
                Ok(mode) => Transition {
                    run: RunView { phase: Phase::ModeDetermined, target: Some(mode), ..pre },
                    effects: Seq::empty(),
                },
                Err(error) => Transition {
                    run: RunView { phase: Phase::Aborted(abort_reason(error)), ..pre },
                    effects: Seq::empty(),
                },
            }
        },
        (Phase::ModeDetermined, EventView::Proceed, Some(mode)) => Transition {
            run: RunView { phase: Phase::PreCommandsRun, ..pre },
            effects: match mode {
                Mode::Tablet => command_effects(pre.config.tablet_commands, pre.context),
                Mode::Laptop => Seq::empty(),
            },
        },
        (Phase::PreCommandsRun, EventView::Proceed, Some(mode)) => Transition {
            run: RunView {
                phase: match planned_outcome(pre.devices) {
                    Ok(_) => Phase::DevicesSwitched,
                    Err(_) => Phase::Aborted(AbortReason::InvalidDevice),
                },
                ..pre
            },
            effects: write_effects(
                planned_requests(pre.devices, action_for(mode), pre.context.superuser),
            ),
        },
        (Phase::DevicesSwitched, EventView::Proceed, Some(mode)) => Transition {
            run: RunView { phase: Phase::PostCommandsRun, ..pre },
            effects: match mode {
                Mode::Laptop => command_effects(pre.config.laptop_commands, pre.context),
                Mode::Tablet => Seq::empty(),
            },
        },
        (Phase::PostCommandsRun, EventView::Proceed, Some(_)) => Transition {
            run: RunView { phase: Phase::Done, ..pre },
            effects: Seq::empty(),
        },
        _ => stay(pre),
    }
}

/// The views of the listings in `v`.
pub open spec fn listings_of(v: Seq<Option<Vec<String>>>) -> Seq<Option<Seq<Seq<char>>>> {
    v.map_values(|l: Option<Vec<String>>| listing_of(l))
}

/// Resolves each of `patterns` against its listing. The patterns that resolve
/// give the devices, in order; each of the others is dropped and told.
pub fn resolve_patterns(patterns: &Vec<String>, listings: &Vec<Option<Vec<String>>>) -> (r: (
    Vec<String>,
    Vec<Effect>,
))
    ensures
        texts_of(r.0@) == resolved_devices(
            texts_of(patterns@),
            listings_of(listings@),
            patterns.len() as int,
        ),
        effects_of(r.1@) == dropped_patterns(
            texts_of(patterns@),
            listings_of(listings@),
            patterns.len() as int,
        ),
{
    let mut devices: Vec<String> = Vec::new();
    let mut dropped: Vec<Effect> = Vec::new();
    let mut i: usize = 0;
    proof {
        assert(texts_of(devices@) =~= Seq::<Seq<char>>::empty());
        assert(effects_of(dropped@) =~= Seq::<EffectView>::empty());
    }
    while i < patterns.len()
        invariant
            i <= patterns.len(),
            texts_of(devices@) == resolved_devices(
                texts_of(patterns@),
                listings_of(listings@),
                i as int,
            ),
            effects_of(dropped@) == dropped_patterns(
                texts_of(patterns@),
                listings_of(listings@),
                i as int,
            ),
        decreases patterns.len() - i,
    {
        let listing: Option<&Vec<String>> = if i < listings.len() {
            match &listings[i] {
                Some(names) => Some(names),
                None => None,
            }
        } else {
            None
        };
        proof {
            assert(crate::resolver::listing_view(listing) == listing_at(
                listings_of(listings@),
                i as int,
            ));
            assert(texts_of(patterns@)[i as int] == patterns[i as int]@);
        }
        match expand_wildcards(patterns[i].as_str(), listing) {
            Ok(device) => {
                devices.push(device);
                proof {
                    assert(texts_of(devices@) =~= texts_of(devices@.drop_last()).push(device@));
                }
            },
            Err(error) => {
                let effect = Effect::Dropped { pattern: patterns[i].clone(), error };
                dropped.push(effect);
                proof {
                    assert(effects_of(dropped@) =~= effects_of(dropped@.drop_last()).push(
                        effect@,
                    ));
                }
            },
        }
        i += 1;
    }
    (devices, dropped)
}

/// Decides for each of `commands`, in order, how it is started.
pub fn plan_commands(commands: &Vec<String>, context: &PrivilegeContext) -> (r: Vec<Effect>)
    ensures
        effects_of(r@) == command_effects(texts_of(commands@), context@),
{
    let mut effects: Vec<Effect> = Vec::new();
    let mut i: usize = 0;
    while i < commands.len()
        invariant
            i <= commands.len(),
            effects.len() == i,
            forall|j: int|
                0 <= j < i ==> (#[trigger] effects[j])@ == command_effect(
                    commands[j]@,
                    context@,
                ),
        decreases commands.len() - i,
    {
        let effect = match smart_execute(commands[i].as_str(), context) {
            Ok(invocation) => Effect::Spawn(invocation),
            Err(failure) => Effect::CommandFailed { command: commands[i].clone(), failure },
        };
        effects.push(effect);
        i += 1;
    }
    proof {
        assert(effects_of(effects@) =~= command_effects(texts_of(commands@), context@));
    }
    effects
}

/// One write effect for each of `requests`, in order.
pub fn plan_writes(requests: &Vec<WriteRequest>) -> (r: Vec<Effect>)
    ensures
        effects_of(r@) == write_effects(requests_of(requests@)),
{
    let mut effects: Vec<Effect> = Vec::new();
    let mut i: usize = 0;
    while i < requests.len()
        invariant
            i <= requests.len(),
            effects.len() == i,
            forall|j: int|
                0 <= j < i ==> (#[trigger] effects[j])@ == EffectView::Write(requests[j]@),
        decreases requests.len() - i,
    {
        effects.push(Effect::Write(requests[i].clone()));
        i += 1;
    }
    proof {
        assert(effects_of(effects@) =~= write_effects(requests_of(requests@)));
    }
    effects
}

/// A run in progress.
#[derive(Debug)]
pub struct Run {
    config: Config,
    context: PrivilegeContext,
    phase: Phase,
    devices: Vec<String>,
    target: Option<Mode>,
}

impl View for Run {
    type V = RunView;

    closed spec fn view(&self) -> RunView {
        RunView {
            config: self.config@,
            context: self.context@,
            phase: self.phase,
            devices: texts_of(self.devices@),
            target: self.target,
        }
    }
}

impl Run {
    /// A run that has not begun.
    pub fn new(config: Config, context: PrivilegeContext) -> (r: Run)
        ensures
            r@ == (RunView {
                config: config@,
                context: context@,
                phase: Phase::Idle,
                devices: Seq::empty(),
                target: None,
            }),
    {
        let r = Run { config, context, phase: Phase::Idle, devices: Vec::new(), target: None };
        proof {
            assert(texts_of(r.devices@) =~= Seq::<Seq<char>>::empty());
        }
        r
    }

    /// How far the run has come.
    pub fn phase(&self) -> (r: Phase)
        ensures
            r == self@.phase,
    {
        self.phase
    }

    /// The mode the run switches to, once it is found.
    pub fn target(&self) -> (r: Option<Mode>)
        ensures
            r == self@.target,
    {
        self.target
    }

    /// The devices that the patterns resolved to.
    pub fn devices(&self) -> (r: &Vec<String>)
        ensures
            texts_of(r@) == self@.devices,
    {
        &self.devices
    }

    /// The first resolved device: the one whose presence tells the current
    /// mode.
    pub fn first_device(&self) -> (r: Option<&str>)
        ensures
            match r {
                Some(path) => self@.devices.len() > 0 && path@ == self@.devices[0],
                None => self@.devices.len() == 0,
            },
    {
        if self.devices.len() > 0 {
            Some(self.devices[0].as_str())
        } else {
            None
        }
    }

    /// For each configured pattern, in order, the directory whose names the
    /// first step of the run asks for; none for a pattern that needs no
    /// listing or names no bus.
    pub fn directories(&self) -> (r: Vec<Option<String>>)
        ensures
            r.len() == self@.config.devices.len(),
            forall|i: int|
                0 <= i < r.len() ==> optional_text(#[trigger] r[i]) == directory_to_list_text(
                    self@.config.devices[i],
                ),
    {
        let mut dirs: Vec<Option<String>> = Vec::new();
        let mut i: usize = 0;
        while i < self.config.devices.len()
            invariant
                i <= self.config.devices.len(),
                dirs.len() == i,
                forall|j: int|
                    0 <= j < i ==> optional_text(#[trigger] dirs[j]) == directory_to_list_text(
                        self.config.devices[j]@,
                    ),
            decreases self.config.devices.len() - i,
        {
            dirs.push(directory_to_list(self.config.devices[i].as_str()));
            i += 1;
        }
        dirs
    }

    /// Whether the run is done or given up.
    pub fn is_finished(&self) -> (r: bool)
        ensures
            r == self@.phase.is_final(),
    {
        match self.phase {
            Phase::Done => true,
            Phase::Aborted(_) => true,
            _ => false,
        }
    }

    /// Takes one step of the run on `event`, and returns what is to be
    /// carried out, in order, before the next step.
    pub fn step(&mut self, event: Event) -> (effects: Vec<Effect>)
        ensures
            final(self)@ == next(old(self)@, event@).run,
            effects_of(effects@) == next(old(self)@, event@).effects,
    {
        let none: Vec<Effect> = Vec::new();
        proof {
            assert(effects_of(none@) =~= Seq::<EffectView>::empty());
        }
        match (self.phase, event, self.target) {
            (Phase::Idle, Event::Listings(listings), _) => {
                let (devices, dropped) = resolve_patterns(&self.config.devices, &listings);
                self.devices = devices;
                self.phase = Phase::DevicesResolved;
                dropped
            },
            (Phase::DevicesResolved, Event::ModeInput { wanted, first_present }, _) => {
                match target_mode(wanted.as_str(), &self.devices, first_present) {
                    Ok(mode) => {
                        self.target = Some(mode);
                        self.phase = Phase::ModeDetermined;
                    },
                    Err(TargetError::Mode(_)) => {
                        self.phase = Phase::Aborted(AbortReason::InvalidMode);
                    },
                    Err(TargetError::Shape(_)) => {
                        self.phase = Phase::Aborted(AbortReason::InvalidDevice);
                    },
                }
                none
            },
            (Phase::ModeDetermined, Event::Proceed, Some(mode)) => {
                self.phase = Phase::PreCommandsRun;
                match mode {
                    Mode::Tablet => plan_commands(&self.config.tablet_commands, &self.context),
                    Mode::Laptop => none,
                }
            },
            (Phase::PreCommandsRun, Event::Proceed, Some(mode)) => {
                let action = match mode {
                    Mode::Laptop => SwitchAction::Bind,
                    Mode::Tablet => SwitchAction::Unbind,
                };
                let plan = switch_devices(&self.devices, action, self.context.superuser);
                self.phase = match plan.outcome {
                    Ok(_) => Phase::DevicesSwitched,
                    Err(_) => Phase::Aborted(AbortReason::InvalidDevice),
                };
                plan_writes(&plan.requests)
            },
            (Phase::DevicesSwitched, Event::Proceed, Some(mode)) => {
                self.phase = Phase::PostCommandsRun;
                match mode {
                    Mode::Laptop => plan_commands(&self.config.laptop_commands, &self.context),
                    Mode::Tablet => none,
                }
            },
            (Phase::PostCommandsRun, Event::Proceed, Some(_)) => {
                self.phase = Phase::Done;
                none
            },
            _ => none,
        }
    }
}

/// Once a run is done or given up, no event changes it or asks for anything.
pub proof fn lemma_final_phase_is_kept(pre: RunView, event: EventView)
    requires
        pre.phase.is_final(),
    ensures
        next(pre, event) == stay(pre),
{
}

/// No step changes the configuration or the context, and none but the first
/// changes the devices.
pub proof fn lemma_step_keeps_inputs(pre: RunView, event: EventView)
    ensures
        next(pre, event).run.config == pre.config,
        next(pre, event).run.context == pre.context,
        pre.phase != Phase::Idle ==> next(pre, event).run.devices == pre.devices,
{
}

/// Resolving the patterns writes nothing and starts nothing: each pattern
/// either gives a device or is dropped, and all that is asked for is to tell
/// of the dropped ones.
pub proof fn lemma_resolution_only_drops(
    patterns: Seq<Seq<char>>,
    listings: Seq<Option<Seq<Seq<char>>>>,
    n: int,
)
    requires
        0 <= n <= patterns.len(),
    ensures
        resolved_devices(patterns, listings, n).len() + dropped_patterns(patterns, listings, n).len()
            == n,
        forall|i: int|
            0 <= i < dropped_patterns(patterns, listings, n).len() ==> (
            #[trigger] dropped_patterns(patterns, listings, n)[i]) is Dropped,
    decreases n,
{
    if n > 0 {
        lemma_resolution_only_drops(patterns, listings, n - 1);
    }
}

/// A pattern that resolves is among the devices and is not told of; one that
/// does not resolve is told of and is not among the devices.
pub proof fn lemma_unresolved_pattern_is_left_out(
    patterns: Seq<Seq<char>>,
    listings: Seq<Option<Seq<Seq<char>>>>,
    n: int,
)
    requires
        0 < n <= patterns.len(),
    ensures
        match resolution(patterns[n - 1], listing_at(listings, n - 1)) {
            Ok(device) => {
                &&& resolved_devices(patterns, listings, n) == resolved_devices(
                    patterns,
                    listings,
                    n - 1,
                ).push(device)
                &&& dropped_patterns(patterns, listings, n) == dropped_patterns(
                    patterns,
                    listings,
                    n - 1,
                )
            },
            Err(error) => {
                &&& resolved_devices(patterns, listings, n) == resolved_devices(
                    patterns,
                    listings,
                    n - 1,
                )
                &&& dropped_patterns(patterns, listings, n) == dropped_patterns(
                    patterns,
                    listings,
                    n - 1,
                ).push(EffectView::Dropped { pattern: patterns[n - 1], error })
            },
        },
{
}

/// A wanted mode that is no mode gives the run up before anything is written
/// or started: the step asks for nothing, and no later step does.
pub proof fn lemma_unknown_mode_gives_up(
    pre: RunView,
    wanted: Seq<char>,
    first_present: bool,
    later: EventView,
)
    requires
        pre.phase == Phase::DevicesResolved,
        wanted != "laptop"@,
        wanted != "tablet"@,
        wanted.len() > 0,
    ensures
        ({
            let step = next(pre, EventView::ModeInput { wanted, first_present });
            &&& step.run.phase == Phase::Aborted(AbortReason::InvalidMode)
            &&& step.effects.len() == 0
            &&& next(step.run, later) == stay(step.run)
        }),
{
}

/// On the way to tablet mode the tablet commands are started first, then the
/// devices are unbound, and nothing follows: the three steps after the mode
/// is found ask for exactly this, in this order.
pub proof fn lemma_tablet_commands_precede_unbinding(pre: RunView)
    requires
        pre.phase == Phase::ModeDetermined,
        pre.target == Some(Mode::Tablet),
    ensures
        ({
            let first = next(pre, EventView::Proceed);
            let second = next(first.run, EventView::Proceed);
            let third = next(second.run, EventView::Proceed);
            &&& first.effects == command_effects(pre.config.tablet_commands, pre.context)
            &&& second.effects == write_effects(
                planned_requests(pre.devices, SwitchAction::Unbind, pre.context.superuser),
            )
            &&& third.effects.len() == 0
            &&& second.run.phase == Phase::DevicesSwitched || second.run.phase == Phase::Aborted(
                AbortReason::InvalidDevice,
            )
        }),
{
}

/// On the way to laptop mode the devices are bound first and the laptop
/// commands are started after that; where a malformed device gives the run
/// up, no command is started at all.
pub proof fn lemma_laptop_commands_follow_binding(pre: RunView)
    requires
        pre.phase == Phase::ModeDetermined,
        pre.target == Some(Mode::Laptop),
    ensures
        ({
            let first = next(pre, EventView::Proceed);
            let second = next(first.run, EventView::Proceed);
            let third = next(second.run, EventView::Proceed);
            &&& first.effects.len() == 0
            &&& second.effects == write_effects(
                planned_requests(pre.devices, SwitchAction::Bind, pre.context.superuser),
            )
            &&& third.effects == match planned_outcome(pre.devices) {
                Ok(_) => command_effects(pre.config.laptop_commands, pre.context),
                Err(_) => Seq::<EffectView>::empty(),
            }
        }),
{
}

/// A command never ends a run: whether it can be started or not, the step
/// that plans the commands leads on.
pub proof fn lemma_commands_never_give_up(pre: RunView)
    requires
        pre.target is Some,
        pre.phase == Phase::ModeDetermined || pre.phase == Phase::DevicesSwitched,
    ensures
        next(pre, EventView::Proceed).run.phase == if pre.phase == Phase::ModeDetermined {
            Phase::PreCommandsRun
        } else {
            Phase::PostCommandsRun
        },
{
}

} // verus!
