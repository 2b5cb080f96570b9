//! Chaining an observer in front of the handlers installed before it.
//!
//! The host pipeline keeps one handler per phase and knows nothing of
//! chains. An observer that wants to see a phase remembers the handler it
//! found there, registers its own, and hands every call on: to the handler
//! it found, or to the pipeline's standard behaviour where it found none.
//! A `HookSlot` is that memory for one phase. It captures the earlier
//! handler once: installing again changes nothing, so the observer can
//! never end up as its own fallback.

use vstd::prelude::*;

verus! {

/// The phases of the pipeline, in the order in which a statement passes
/// through them.
#[derive(Copy, Clone, Debug, PartialEq, Eq, Structural)]
pub enum Phase {
    Analyze,
    Plan,
    ExecutorStart,
    ExecutorRun,
    ExecutorFinish,
    ExecutorEnd,
    ProcessUtility,
}

impl Phase {
    /// Whether the pipeline has standard behaviour of its own for the
    /// phase. Analysis has none: with no handler registered nothing is left
    /// to do.
    pub open spec fn has_standard(self) -> bool {
        self != Phase::Analyze
    }

    /// Whether the pipeline has standard behaviour of its own for the
    /// phase.
    pub fn has_standard_handler(self) -> (b: bool)
        ensures
            b == self.has_standard(),
    {
        match self {
            Phase::Analyze => false,
            _ => true,
        }
    }
}

/// Why the observer refuses to start.
#[derive(Copy, Clone, Debug, PartialEq, Eq, Structural)]
pub enum InitError {
    /// The component was loaded after the host had set up its shared
    /// memory, too late to get the table a place in it.
    NotPreloaded,
}

impl InitError {
    /// The reason shown before the process halts.
    pub fn message(&self) -> (text: &'static str)
        ensures
            text@ == "this extension must be loaded via shared_preload_libraries."@,
    {
        match self {
            InitError::NotPreloaded => "this extension must be loaded via shared_preload_libraries.",
        }
    }
}

/// Decides whether the observer may be set up: only while the host is
/// loading its preloaded components. Anywhere else the shared table could
/// be left half set up, so the caller must halt the process.
pub fn check_startup(preloading: bool) -> (verdict: Result<(), InitError>)
    ensures
        preloading ==> verdict == Ok::<(), InitError>(()),
        !preloading ==> verdict == Err::<(), InitError>(InitError::NotPreloaded),
{
    if preloading {
        Ok(())
    } else {
        Err(InitError::NotPreloaded)
    }
}

/// Where a call goes once the observer has done its own work.
#[derive(Debug)]
pub enum Delegation<H> {
    /// To the handler that was registered before the observer.
    Previous(H),
    /// To the pipeline's standard behaviour for the phase.
    Standard,
    /// Nowhere: no earlier handler, and the phase has no standard behaviour.
    Finished,
}

/// What a slot stands for.
pub struct SlotState<H> {
    /// Whether the observer has been installed for the phase.
    pub installed: bool,
    /// The handler found at installation, if any.
    pub fallback: Option<H>,
}

/// One installation: the slot and the host's registration before it, and
/// both after it. The first installation captures the host's handler and
/// registers `own`; every later one leaves both as they are.
pub open spec fn install_step<H>(slot: SlotState<H>, host: Option<H>, own: H) -> (
    SlotState<H>,
    Option<H>,
) {
    if slot.installed {
        (slot, host)
    } else {
        (SlotState { installed: true, fallback: host }, Some(own))
    }
}

/// Where a call for `phase` goes from a slot.
pub open spec fn delegation_of<H>(slot: SlotState<H>, phase: Phase) -> Delegation<H> {
    match slot.fallback {
        Some(previous) => Delegation::Previous(previous),
        None => if phase.has_standard() {
            Delegation::Standard
        } else {
            Delegation::Finished
        },
    }
}

/// Installing twice is installing once: the second installation changes
/// neither the slot nor the host's registration. The fallback is the
/// handler that the host held before the first installation, so unless the
/// host held the observer's own handler then, the observer is not its own
/// fallback.
pub proof fn lemma_install_twice<H>(host: Option<H>, own: H)
    ensures
        ({
            let fresh = SlotState::<H> { installed: false, fallback: None };
            let once = install_step(fresh, host, own);
            let twice = install_step(once.0, once.1, own);
            &&& twice == once
            &&& twice.0.fallback == host
            &&& twice.1 == Some(own)
            &&& host != Some(own) ==> twice.0.fallback != Some(own)
        }),
{
}

/// An installed slot keeps its fallback whatever the host holds when the
/// observer is installed again, its own handler included.
pub proof fn lemma_install_idempotent<H>(slot: SlotState<H>, host: Option<H>, own: H)
    requires
        slot.installed,
    ensures
        install_step(slot, host, own) == (slot, host),
{
}

/// The memory of one phase: whether the observer is installed there, and
/// which handler it found.
pub struct HookSlot<H> {
    previous: Option<H>,
    installed: bool,
}

impl<H> View for HookSlot<H> {
    type V = SlotState<H>;

    closed spec fn view(&self) -> SlotState<H> {
        SlotState { installed: self.installed, fallback: self.previous }
    }
}

impl<H: Copy> HookSlot<H> {
    /// A slot for a phase in which the observer is not installed yet.
    pub fn new() -> (slot: Self)
        ensures
            slot@ == (SlotState::<H> { installed: false, fallback: None }),
    {
        Self { previous: None, installed: false }
    }

    /// Installs `own` as the handler registered with the host, which holds
    /// its registration for this phase in `host`. The first call stores
    /// what `host` held as the fallback and registers `own`; a later call
    /// does nothing.
    pub fn install(&mut self, host: &mut Option<H>, own: H)
        ensures
            (final(self)@, *final(host)) == install_step(old(self)@, *old(host), own),
            final(self)@.installed,
    {
        if !self.installed {
            self.previous = *host;
            self.installed = true;
            *host = Some(own);
        }
    }

    /// Whether the observer has been installed for the phase.
    pub fn is_installed(&self) -> (b: bool)
        ensures
            b == self@.installed,
    {
        self.installed
    }

    /// The handler found at installation, if any.
    pub fn previous(&self) -> (h: Option<H>)
        ensures
            h == self@.fallback,
    {
        self.previous
    }

    /// Where a call for `phase` goes once the observer has done its own
    /// work: to the earlier handler if there is one, else to the standard
    /// behaviour of the phase if it has any.
    pub fn delegation(&self, phase: Phase) -> (d: Delegation<H>)
        ensures
            d == delegation_of(self@, phase),
    {
        match self.previous {
            Some(previous) => Delegation::Previous(previous),
            None => {
                if phase.has_standard_handler() {
                    Delegation::Standard
                } else {
                    Delegation::Finished
                }
            },
        }
    }
}

} // verus!
