//! The kernel features that the panel shows and switches.

use crate::failure;
use crate::failure::Failure;
use crate::number;
use std::collections::HashMap;
use vstd::prelude::*;

verus! {

broadcast use vstd::std_specs::hash::group_hash_axioms;

/// A kernel feature.
#[derive(Clone, Copy, Debug, PartialEq, Eq, Structural)]
pub enum FeatureId {
    SuCompat,
    KernelUmount,
    Sulog,
    AdbRoot,
    SelinuxHide,
    Stealth,
}

/// The features, in the order in which the panel shows them.
pub const ALL_FEATURES: [FeatureId; 6] = [
    FeatureId::SuCompat,
    FeatureId::KernelUmount,
    FeatureId::Sulog,
    FeatureId::AdbRoot,
    FeatureId::SelinuxHide,
    FeatureId::Stealth,
];

impl FeatureId {
    /// The name by which the panel knows the feature.
    pub open spec fn spec_name(self) -> Seq<char> {
        match self {
            FeatureId::SuCompat => "su_compat"@,
            FeatureId::KernelUmount => "kernel_umount"@,
            FeatureId::Sulog => "sulog"@,
            FeatureId::AdbRoot => "adb_root"@,
            FeatureId::SelinuxHide => "selinux_hide"@,
            FeatureId::Stealth => "stealth"@,
        }
    }

    /// The name by which the panel knows the feature.
    pub fn name(self) -> (r: &'static str)
        ensures
            r@ == self.spec_name(),
    {
        match self {
            FeatureId::SuCompat => "su_compat",
            FeatureId::KernelUmount => "kernel_umount",
            FeatureId::Sulog => "sulog",
            FeatureId::AdbRoot => "adb_root",
            FeatureId::SelinuxHide => "selinux_hide",
            FeatureId::Stealth => "stealth",
        }
    }
}

/// What setting a feature needs next.
#[derive(Debug)]
pub enum SetStep {
    /// Find out whether there is a feature of that number.
    Resolve { id: u32, value: u64 },
    /// Give the feature that value in the kernel.
    Apply { id: u32, value: u64 },
    /// Load the saved values of the features.
    LoadConfig { id: u32, value: u64 },
    /// Save these values of the features.
    SaveConfig { config: HashMap<u32, u64> },
    /// Nothing: the feature is set, or this is why not.
    Done(Result<(), Failure>),
}

/// The outcome of what setting a feature needed.
#[derive(Debug)]
pub enum SetEvent {
    /// Whether there is a feature of that number.
    Known(bool),
    /// Whether the kernel has the value, or why not.
    Applied(Result<(), Failure>),
    /// The saved values, if they could be loaded.
    Config(Option<HashMap<u32, u64>>),
    /// Whether the values are saved, or why not.
    Saved(Result<(), Failure>),
}

/// The model of [`SetStep`].
pub enum SetStepView {
    Resolve { id: u32, value: u64 },
    Apply { id: u32, value: u64 },
    LoadConfig { id: u32, value: u64 },
    SaveConfig { config: Map<u32, u64> },
    Done(Result<(), Seq<Seq<char>>>),
}

/// The model of [`SetEvent`].
pub enum SetEventView {
    Known(bool),
    Applied(Result<(), Seq<Seq<char>>>),
    Config(Option<Map<u32, u64>>),
    Saved(Result<(), Seq<Seq<char>>>),
}

impl View for SetStep {
    type V = SetStepView;

    open spec fn view(&self) -> SetStepView {
        match *self {
            SetStep::Resolve { id, value } => SetStepView::Resolve { id, value },
            SetStep::Apply { id, value } => SetStepView::Apply { id, value },
            SetStep::LoadConfig { id, value } => SetStepView::LoadConfig { id, value },
            SetStep::SaveConfig { config } => SetStepView::SaveConfig { config: config@ },
            SetStep::Done(r) => SetStepView::Done(failure::outcome(r)),
        }
    }
}

impl View for SetEvent {
    type V = SetEventView;

    open spec fn view(&self) -> SetEventView {
        match *self {
            SetEvent::Known(known) => SetEventView::Known(known),
            SetEvent::Applied(r) => SetEventView::Applied(failure::outcome(r)),
            SetEvent::Config(Some(config)) => SetEventView::Config(Some(config@)),
            SetEvent::Config(None) => SetEventView::Config(None),
            SetEvent::Saved(r) => SetEventView::Saved(failure::outcome(r)),
        }
    }
}

/// The saved values with one of them set. Values that could not be loaded count
/// as none.
pub open spec fn config_with(
    config: Option<Map<u32, u64>>,
    id: u32,
    value: u64,
) -> Map<u32, u64> {
    match config {
        Some(m) => m.insert(id, value),
        None => Map::empty().insert(id, value),
    }
}

/// What setting a feature needs after an outcome. The kernel is asked first;
/// only a value that it has taken is saved. The feature is set once both have
/// the value, the kernel and the saved values.
pub open spec fn set_next(pending: SetStepView, event: SetEventView) -> SetStepView {
    match (pending, event) {
        (SetStepView::Resolve { id, value }, SetEventView::Known(true)) => SetStepView::Apply {
            id,
            value,
        },
        (SetStepView::Resolve { id, value }, SetEventView::Known(false)) => SetStepView::Done(
            Err(seq!["unknown feature id "@ + number::decimal(id as nat)]),
        ),
        (SetStepView::Apply { id, value }, SetEventView::Applied(Ok(()))) =>
            SetStepView::LoadConfig { id, value },
        (SetStepView::Apply { id, value }, SetEventView::Applied(Err(e))) => SetStepView::Done(
            Err(e),
        ),
        (SetStepView::LoadConfig { id, value }, SetEventView::Config(config)) =>
            SetStepView::SaveConfig { config: config_with(config, id, value) },
        (SetStepView::SaveConfig { .. }, SetEventView::Saved(Ok(()))) => SetStepView::Done(
            Ok(()),
        ),
        (SetStepView::SaveConfig { .. }, SetEventView::Saved(Err(e))) => SetStepView::Done(
            Err(seq!["failed to save feature config"@] + e),
        ),
        _ => pending,
    }
}

/// What setting a feature needs after the outcome of what it needed. Setting
/// starts with [`SetStep::Resolve`]; an outcome of something else than what is
/// pending leaves that pending.
pub fn set_feature_persist(pending: SetStep, event: SetEvent) -> (next: SetStep)
    ensures
        next@ == set_next(pending@, event@),
{
    match (pending, event) {
        (SetStep::Resolve { id, value }, SetEvent::Known(known)) => {
            if known {
                SetStep::Apply { id, value }
            } else {
                let mut message = String::new();
                message.append("unknown feature id ");
                number::push_decimal(&mut message, id as u64);
                SetStep::Done(Err(Failure::new(message)))
            }
        },
        (SetStep::Apply { id, value }, SetEvent::Applied(Ok(()))) => SetStep::LoadConfig {
            id,
            value,
        },
        (SetStep::Apply { .. }, SetEvent::Applied(Err(e))) => SetStep::Done(Err(e)),
        (SetStep::LoadConfig { id, value }, SetEvent::Config(config)) => {
            let mut config: HashMap<u32, u64> = match config {
                Some(m) => m,
                None => HashMap::new(),
            };
            config.insert(id, value);
            SetStep::SaveConfig { config }
        },
        (SetStep::SaveConfig { .. }, SetEvent::Saved(Ok(()))) => SetStep::Done(Ok(())),
        (SetStep::SaveConfig { .. }, SetEvent::Saved(Err(e))) => {
            let mut message = String::new();
            message.append("failed to save feature config");
            SetStep::Done(Err(e.causing(message)))
        },
        (pending, _) => pending,
    }
}

/// How setting a feature ends, and the values that it hands over to be saved on
/// the way, for given outcomes of what it needs.
pub open spec fn set_run(
    id: u32,
    value: u64,
    known: bool,
    applied: Result<(), Seq<Seq<char>>>,
    config: Option<Map<u32, u64>>,
    saved: Result<(), Seq<Seq<char>>>,
) -> (SetStepView, Option<Map<u32, u64>>) {
    let s1 = set_next(SetStepView::Resolve { id, value }, SetEventView::Known(known));
    let s2 = set_next(s1, SetEventView::Applied(applied));
    let s3 = set_next(s2, SetEventView::Config(config));
    let s4 = set_next(s3, SetEventView::Saved(saved));
    (
        s4,
        if s3 is SaveConfig {
            Some(s3->config)
        } else {
            None
        },
    )
}

/// Setting a feature succeeds if and only if the feature is known, the kernel
/// takes the value, and it is saved. Values are handed over to be saved if and
/// only if the kernel has taken the one of a known feature: that one, and for
/// every other feature the one that was saved before.
pub proof fn law_set_is_saved(
    id: u32,
    value: u64,
    known: bool,
    applied: Result<(), Seq<Seq<char>>>,
    config: Option<Map<u32, u64>>,
    saved: Result<(), Seq<Seq<char>>>,
)
    ensures
        ({
            let (end, written) = set_run(id, value, known, applied, config, saved);
            &&& end is Done
            &&& end == SetStepView::Done(Ok(())) <==> known && applied is Ok && saved is Ok
            &&& written is Some <==> known && applied is Ok
            &&& written matches Some(m) ==> {
                &&& m.dom().contains(id) && m[id] == value
                &&& forall|other: u32|
                    other != id ==> (#[trigger] m.dom().contains(other) <==> config is Some
                        && config->0.dom().contains(other))
                &&& forall|other: u32|
                    other != id && #[trigger] m.dom().contains(other) ==> m[other]
                        == config->0[other]
            }
        }),
{
}

/// A feature that is not known, that the kernel refuses, or whose value could
/// not be saved, is answered with the reason.
pub proof fn law_refused_set(
    id: u32,
    value: u64,
    known: bool,
    applied: Result<(), Seq<Seq<char>>>,
    config: Option<Map<u32, u64>>,
    saved: Result<(), Seq<Seq<char>>>,
)
    ensures
        !known ==> set_run(id, value, known, applied, config, saved).0 == SetStepView::Done(
            Err(seq!["unknown feature id "@ + number::decimal(id as nat)]),
        ),
        known && applied is Err ==> set_run(id, value, known, applied, config, saved).0
            == SetStepView::Done(Err(applied->Err_0)),
        known && applied is Ok && saved is Err ==> set_run(
            id,
            value,
            known,
            applied,
            config,
            saved,
        ).0 == SetStepView::Done(Err(seq!["failed to save feature config"@] + saved->Err_0)),
{
}

/// The features by the names that the page has labels for, in the order in which
/// it shows them.
pub proof fn law_feature_names(f: FeatureId)
    ensures
        f.spec_name() == match f {
            FeatureId::SuCompat => "su_compat"@,
            FeatureId::KernelUmount => "kernel_umount"@,
            FeatureId::Sulog => "sulog"@,
            FeatureId::AdbRoot => "adb_root"@,
            FeatureId::SelinuxHide => "selinux_hide"@,
            FeatureId::Stealth => "stealth"@,
        },
        ALL_FEATURES@ == seq![
            FeatureId::SuCompat,
            FeatureId::KernelUmount,
            FeatureId::Sulog,
            FeatureId::AdbRoot,
            FeatureId::SelinuxHide,
            FeatureId::Stealth,
        ],
{
}

/// What setting a feature needs after the outcomes, from its beginning.
pub open spec fn set_after(id: u32, value: u64, events: Seq<SetEventView>) -> SetStepView
    decreases events.len(),
{
    if events.len() == 0 {
        SetStepView::Resolve { id, value }
    } else {
        set_next(set_after(id, value, events.drop_last()), events.last())
    }
}

/// Whatever comes, the feature that is looked up, given a value in the kernel and
/// saved is the one that was asked for, and its value is the one that was asked
/// for.
pub proof fn law_set_is_what_was_asked(id: u32, value: u64, events: Seq<SetEventView>)
    ensures
        match set_after(id, value, events) {
            SetStepView::Resolve { id: i, value: v } => i == id && v == value,
            SetStepView::Apply { id: i, value: v } => i == id && v == value,
            SetStepView::LoadConfig { id: i, value: v } => i == id && v == value,
            SetStepView::SaveConfig { config } => config.dom().contains(id) && config[id] == value,
            SetStepView::Done(_) => true,
        },
    decreases events.len(),
{
    if events.len() != 0 {
        law_set_is_what_was_asked(id, value, events.drop_last());
    }
}

/// Whatever comes, a feature counts as set only after the kernel has taken a
/// value and the values were saved, each when that was pending.
pub proof fn law_set_needs_both(id: u32, value: u64, events: Seq<SetEventView>)
    ensures
        set_after(id, value, events) is LoadConfig || set_after(id, value, events) is SaveConfig
            || set_after(id, value, events) == SetStepView::Done(Ok(())) ==> exists|i: int|
            0 <= i < events.len() && (#[trigger] events[i] matches SetEventView::Applied(r) && r
                is Ok) && set_after(id, value, events.take(i)) is Apply,
        set_after(id, value, events) == SetStepView::Done(Ok(())) ==> exists|i: int|
            0 <= i < events.len() && (#[trigger] events[i] matches SetEventView::Saved(r) && r
                is Ok) && set_after(id, value, events.take(i)) is SaveConfig,
    decreases events.len(),
{
    if events.len() != 0 {
        let before = events.drop_last();
        law_set_needs_both(id, value, before);
        assert(events[events.len() - 1] == events.last());
        assert(events.take(events.len() - 1) == before);
        assert forall|i: int| 0 <= i < before.len() implies #[trigger] before[i] == events[i]
            && before.take(i) == events.take(i) by {
            assert(before.take(i) == events.take(i));
        }
    }
}

/// Each step goes on as soon as its outcome allows: a known feature is handed to
/// the kernel, a value that the kernel has is saved with the others, and once that
/// is done the feature is set. A failure ends it with the reason.
pub proof fn law_set_goes_on(
    id: u32,
    value: u64,
    loaded: Option<Map<u32, u64>>,
    config: Map<u32, u64>,
    e: Seq<Seq<char>>,
)
    ensures
        set_next(SetStepView::Resolve { id, value }, SetEventView::Known(true))
            == (SetStepView::Apply { id, value }),
        set_next(SetStepView::Apply { id, value }, SetEventView::Applied(Ok(())))
            == (SetStepView::LoadConfig { id, value }),
        set_next(SetStepView::LoadConfig { id, value }, SetEventView::Config(loaded))
            matches SetStepView::SaveConfig { config: c } && c.remove(id) == (match loaded {
            Some(m) => m.remove(id),
            None => Map::empty(),
        }) && c.dom().contains(id) && c[id] == value,
        set_next(SetStepView::SaveConfig { config }, SetEventView::Saved(Ok(())))
            == SetStepView::Done(Ok(())),
        set_next(SetStepView::Resolve { id, value }, SetEventView::Known(false))
            == SetStepView::Done(Err(seq!["unknown feature id "@ + number::decimal(id as nat)])),
        set_next(SetStepView::Apply { id, value }, SetEventView::Applied(Err(e)))
            == SetStepView::Done(Err(e)),
        set_next(SetStepView::SaveConfig { config }, SetEventView::Saved(Err(e)))
            == SetStepView::Done(Err(seq!["failed to save feature config"@] + e)),
{
    let c = config_with(loaded, id, value);
    match loaded {
        Some(m) => {
            assert(c.remove(id) == m.remove(id));
        },
        None => {
            assert(c.remove(id) == Map::<u32, u64>::empty());
        },
    }
}

/// A step waits for its own outcome: any other leaves it pending, and what is
/// done stays done.
pub proof fn law_set_waits(pending: SetStepView, event: SetEventView)
    requires
        pending is Resolve ==> !(event is Known),
        pending is Apply ==> !(event is Applied),
        pending is LoadConfig ==> !(event is Config),
        pending is SaveConfig ==> !(event is Saved),
    ensures
        set_next(pending, event) == pending,
{
}

/// The model of a step or an outcome holds its parts.
pub proof fn law_set_model(step: SetStep, event: SetEvent)
    ensures
        match step {
            SetStep::Resolve { id, value } => step@ == (SetStepView::Resolve { id, value }),
            SetStep::Apply { id, value } => step@ == (SetStepView::Apply { id, value }),
            SetStep::LoadConfig { id, value } => step@ == (SetStepView::LoadConfig { id, value }),
            SetStep::SaveConfig { config } => step@ == (SetStepView::SaveConfig {
                config: config@,
            }),
            SetStep::Done(r) => step@ == SetStepView::Done(failure::outcome(r)),
        },
        match event {
            SetEvent::Known(known) => event@ == SetEventView::Known(known),
            SetEvent::Applied(r) => event@ == SetEventView::Applied(failure::outcome(r)),
            SetEvent::Config(Some(config)) => event@ == SetEventView::Config(Some(config@)),
            SetEvent::Config(None) => event@ == SetEventView::Config(None),
            SetEvent::Saved(r) => event@ == SetEventView::Saved(failure::outcome(r)),
        },
{
}

} // verus!
