//! The persona's operating modes and the two guards on them: no mode change
//! while a phone call is active, and the intimate mode only with the hosted
//! voice.

use vstd::prelude::*;

verus! {

/// Operating modes.
#[derive(Debug, Clone, Copy, PartialEq, Eq, Structural)]
pub enum AlisaMode {
    /// Passive listening, time announcements, greetings
    Ambient,
    /// Active conversation, humor, opinions
    Companion,
    /// Intimate mode: only with the hosted voice, never with the offline one
    Special,
    /// Wake-word only
    Quiet,
    /// Special paused due to an active phone call
    CallPause,
}

impl Default for AlisaMode {
    fn default() -> (r: Self)
        ensures
            r == AlisaMode::Ambient,
    {
        AlisaMode::Ambient
    }
}

/// The whole state of the persona.
#[derive(Debug, Clone, Copy, PartialEq, Eq, Structural)]
pub struct AlisaState {
    pub mode: AlisaMode,
    pub call_active: bool,
    pub elevenlabs_available: bool,
    /// Mode before a call paused it (for an explicit resume)
    pub mode_before_pause: Option<AlisaMode>,
}

/// Error returned when a mode change is refused during a call.
pub open spec fn msg_call_active() -> Seq<char> {
    "Call active — mode change blocked (Thomas-Proof)"@
}

/// Error returned when the intimate mode is requested without the hosted voice.
pub open spec fn msg_no_hosted_voice() -> Seq<char> {
    "Nicht mit Thorstens Stimme, Schatz."@
}

/// Error returned when a resume is requested during a call.
pub open spec fn msg_call_still_active() -> Seq<char> {
    "Call still active"@
}

/// View of a mode-change result.
pub open spec fn mode_result_view(r: Result<AlisaMode, &str>) -> Result<AlisaMode, Seq<char>> {
    match r {
        Ok(m) => Ok(m),
        Err(e) => Err(e@),
    }
}

/// Initial state.
pub open spec fn spec_new() -> AlisaState {
    AlisaState {
        mode: AlisaMode::Ambient,
        call_active: false,
        elevenlabs_available: false,
        mode_before_pause: None,
    }
}

/// A requested mode change: refused during a call (unless the target is
/// `CallPause`) and refused for `Special` without the hosted voice.
pub open spec fn spec_request_mode(s: AlisaState, target: AlisaMode) -> (AlisaState, Result<AlisaMode, Seq<char>>) {
    if s.call_active && target != AlisaMode::CallPause {
        (s, Err(msg_call_active()))
    } else if target == AlisaMode::Special && !s.elevenlabs_available {
        (s, Err(msg_no_hosted_voice()))
    } else {
        (AlisaState { mode: target, ..s }, Ok(target))
    }
}

/// A call starts: `Special` is paused and remembered.
pub open spec fn spec_on_call_start(s: AlisaState) -> AlisaState {
    if s.mode == AlisaMode::Special {
        AlisaState {
            call_active: true,
            mode_before_pause: Some(AlisaMode::Special),
            mode: AlisaMode::CallPause,
            ..s
        }
    } else {
        AlisaState { call_active: true, ..s }
    }
}

/// A call ends: a paused state falls back to `Ambient`; nothing is resumed.
pub open spec fn spec_on_call_end(s: AlisaState) -> AlisaState {
    if s.mode == AlisaMode::CallPause {
        AlisaState { call_active: false, mode: AlisaMode::Ambient, ..s }
    } else {
        AlisaState { call_active: false, ..s }
    }
}

/// Explicit resume after a call: re-requests the remembered mode, once.
pub open spec fn spec_resume_after_call(s: AlisaState) -> (AlisaState, Result<AlisaMode, Seq<char>>) {
    if s.call_active {
        (s, Err(msg_call_still_active()))
    } else {
        match s.mode_before_pause {
            Some(prev) => spec_request_mode(AlisaState { mode_before_pause: None, ..s }, prev),
            None => (s, Ok(s.mode)),
        }
    }
}

/// The persona's state machine.
#[derive(Debug)]
pub struct Alisa {
    mode: AlisaMode,
    call_active: bool,
    elevenlabs_available: bool,
    mode_before_pause: Option<AlisaMode>,
}

impl View for Alisa {
    type V = AlisaState;

    closed spec fn view(&self) -> AlisaState {
        AlisaState {
            mode: self.mode,
            call_active: self.call_active,
            elevenlabs_available: self.elevenlabs_available,
            mode_before_pause: self.mode_before_pause,
        }
    }
}

impl Default for Alisa {
    fn default() -> (r: Self)
        ensures
            r@ == spec_new(),
    {
        Self::new()
    }
}

impl Alisa {
    pub fn new() -> (r: Self)
        ensures
            r@ == spec_new(),
    {
        Self {
            mode: AlisaMode::Ambient,
            call_active: false,
            elevenlabs_available: false,
            mode_before_pause: None,
        }
    }

    pub fn mode(&self) -> (m: AlisaMode)
        ensures
            m == self@.mode,
    {
        self.mode
    }

    pub fn is_call_active(&self) -> (b: bool)
        ensures
            b == self@.call_active,
    {
        self.call_active
    }

    /// Set hosted-voice availability (checked at startup and periodically).
    pub fn set_elevenlabs_available(&mut self, available: bool)
        ensures
            final(self)@ == (AlisaState { elevenlabs_available: available, ..old(self)@ }),
    {
        self.elevenlabs_available = available;
    }

    /// Request a mode change, enforcing both guards.
    pub fn request_mode(&mut self, target: AlisaMode) -> (r: Result<AlisaMode, &'static str>)
        ensures
            (final(self)@, mode_result_view(r)) == spec_request_mode(old(self)@, target),
    {
        if self.call_active && target != AlisaMode::CallPause {
            return Err("Call active — mode change blocked (Thomas-Proof)");
        }
        if target == AlisaMode::Special && !self.elevenlabs_available {
            return Err("Nicht mit Thorstens Stimme, Schatz.");
        }
        self.mode = target;
        Ok(self.mode)
    }

    /// Phone call started: `Special` is paused.
    pub fn on_call_start(&mut self)
        ensures
            final(self)@ == spec_on_call_start(old(self)@),
    {
        self.call_active = true;
        if self.mode == AlisaMode::Special {
            self.mode_before_pause = Some(AlisaMode::Special);
            self.mode = AlisaMode::CallPause;
        }
    }

    /// Phone call ended: no automatic resume.
    pub fn on_call_end(&mut self)
        ensures
            final(self)@ == spec_on_call_end(old(self)@),
    {
        self.call_active = false;
        if self.mode == AlisaMode::CallPause {
            self.mode = AlisaMode::Ambient;
        }
    }

    /// Explicit resume after a call.
    pub fn resume_after_call(&mut self) -> (r: Result<AlisaMode, &'static str>)
        ensures
            (final(self)@, mode_result_view(r)) == spec_resume_after_call(old(self)@),
    {
        if self.call_active {
            return Err("Call still active");
        }
        if let Some(prev) = self.mode_before_pause.take() {
            self.request_mode(prev)
        } else {
            Ok(self.mode)
        }
    }

    /// Generate a response. Nothing is generated during a call, and no
    /// response backend is wired in, so the answer is always empty.
    pub fn respond(&self, _input: &str) -> (r: Option<String>)
        ensures
            r is None,
    {
        if self.call_active {
            return None;
        }
        None
    }
}

// ---------------------------------------------------------------------------
// Laws
// ---------------------------------------------------------------------------

/// During a call every mode change other than to `CallPause` is refused and
/// leaves the state as it was.
pub proof fn law_no_mode_change_during_call(s: AlisaState, target: AlisaMode)
    requires
        s.call_active,
        target != AlisaMode::CallPause,
    ensures
        spec_request_mode(s, target) == (s, Err::<AlisaMode, Seq<char>>(msg_call_active())),
{
}

/// Without the hosted voice the intimate mode is never entered by a request.
pub proof fn law_special_needs_hosted_voice(s: AlisaState, target: AlisaMode)
    requires
        !s.elevenlabs_available,
    ensures
        spec_request_mode(s, target).0.mode == AlisaMode::Special ==> s.mode == AlisaMode::Special,
        spec_request_mode(s, target).1 != Ok::<AlisaMode, Seq<char>>(AlisaMode::Special),
{
}

/// A call that starts in `Special` pauses it and remembers it.
pub proof fn law_call_pauses_special(s: AlisaState)
    requires
        s.mode == AlisaMode::Special,
    ensures
        spec_on_call_start(s).mode == AlisaMode::CallPause,
        spec_on_call_start(s).call_active,
        spec_on_call_start(s).mode_before_pause == Some(AlisaMode::Special),
{
}

/// A call's start and end leave `Special` as `Ambient`: there is no automatic
/// resume.
pub proof fn law_no_auto_resume(s: AlisaState)
    requires
        s.mode == AlisaMode::Special,
    ensures
        spec_on_call_end(spec_on_call_start(s)).mode == AlisaMode::Ambient,
        !spec_on_call_end(spec_on_call_start(s)).call_active,
{
}

/// After such a call an explicit resume brings `Special` back, while the
/// hosted voice is available.
pub proof fn law_explicit_resume(s: AlisaState)
    requires
        s.mode == AlisaMode::Special,
        s.elevenlabs_available,
    ensures
        ({
            let after = spec_on_call_end(spec_on_call_start(s));
            let (t, r) = spec_resume_after_call(after);
            t.mode == AlisaMode::Special && r == Ok::<AlisaMode, Seq<char>>(AlisaMode::Special)
                && t.mode_before_pause is None
        }),
{
}

/// A resume is refused for as long as the call lasts.
pub proof fn law_no_resume_during_call(s: AlisaState)
    requires
        s.call_active,
    ensures
        spec_resume_after_call(s) == (s, Err::<AlisaMode, Seq<char>>(msg_call_still_active())),
{
}

} // verus!
