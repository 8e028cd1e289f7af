//! The application state machine: a tagged union whose counters, delay and
//! auth token exist only in the initialized phase. Every mutator is total and
//! degrades to a no-op outside that phase, so the loop controller never needs
//! to branch on the phase before calling one.

use vstd::prelude::*;

verus! {

/// An access token obtained from the auth collaborator, reduced to the value
/// the engine stores; the engine never inspects it beyond its presence.
#[derive(Debug, Clone)]
pub struct Token {
    pub access_token: String,
}

/// Lowest and highest delay, in seconds, that the adjusters allow.
pub const MIN_DELAY_SECS: u64 = 1;
pub const MAX_DELAY_SECS: u64 = 10;

/// The phases of the application. The delay is kept in whole seconds;
/// counters and token exist only once initialization has completed.
#[derive(Debug, Clone)]
pub enum AppState {
    /// The phase at process start, before the initialize command completes.
    Init,
    /// Reserved for an explicit login failure; nothing transitions here yet.
    LoggedOut,
    /// The working phase, entered exactly once.
    Initialized {
        /// Sleep delay in seconds, clamped to the allowed range on every
        /// adjustment.
        duration: u64,
        /// How many sleep commands have completed.
        counter_sleep: u32,
        /// How many timer ticks have been observed.
        counter_tick: u64,
        /// The auth token, once a login has succeeded.
        auth_token: Option<Token>,
    },
}

/// The delay `d` adjusted one second up, clamped to the allowed range.
pub open spec fn spec_inc_delay(d: u64) -> u64 {
    if d >= MAX_DELAY_SECS {
        MAX_DELAY_SECS
    } else if d + 1 <= MIN_DELAY_SECS {
        MIN_DELAY_SECS
    } else {
        (d + 1) as u64
    }
}

/// The delay `d` adjusted one second down, clamped to the allowed range:
/// decrementing saturates at the lower bound instead of wrapping.
pub open spec fn spec_dec_delay(d: u64) -> u64 {
    if d <= MIN_DELAY_SECS {
        MIN_DELAY_SECS
    } else if d - 1 >= MAX_DELAY_SECS {
        MAX_DELAY_SECS
    } else {
        (d - 1) as u64
    }
}

impl AppState {
    /// The delay of an initialized state is inside the allowed range.
    pub open spec fn delay_in_range(self) -> bool {
        self matches AppState::Initialized { duration, .. }
            ==> MIN_DELAY_SECS <= duration <= MAX_DELAY_SECS
    }

    /// The state after counting one completed sleep.
    pub open spec fn spec_incr_sleep(self) -> AppState {
        match self {
            AppState::Initialized { duration, counter_sleep, counter_tick, auth_token } => {
                if counter_sleep < u32::MAX {
                    AppState::Initialized {
                        duration,
                        counter_sleep: (counter_sleep + 1) as u32,
                        counter_tick,
                        auth_token,
                    }
                } else {
                    self
                }
            },
            _ => self,
        }
    }

    /// The state after counting one timer tick.
    pub open spec fn spec_incr_tick(self) -> AppState {
        match self {
            AppState::Initialized { duration, counter_sleep, counter_tick, auth_token } => {
                if counter_tick < u64::MAX {
                    AppState::Initialized {
                        duration,
                        counter_sleep,
                        counter_tick: (counter_tick + 1) as u64,
                        auth_token,
                    }
                } else {
                    self
                }
            },
            _ => self,
        }
    }

    /// The state after one upward delay adjustment.
    pub open spec fn spec_increment_delay(self) -> AppState {
        match self {
            AppState::Initialized { duration, counter_sleep, counter_tick, auth_token } => {
                AppState::Initialized {
                    duration: spec_inc_delay(duration),
                    counter_sleep,
                    counter_tick,
                    auth_token,
                }
            },
            _ => self,
        }
    }

    /// The state after one downward delay adjustment.
    pub open spec fn spec_decrement_delay(self) -> AppState {
        match self {
            AppState::Initialized { duration, counter_sleep, counter_tick, auth_token } => {
                AppState::Initialized {
                    duration: spec_dec_delay(duration),
                    counter_sleep,
                    counter_tick,
                    auth_token,
                }
            },
            _ => self,
        }
    }

    /// The state after a successful login stored `token`.
    pub open spec fn spec_set_token(self, token: Token) -> AppState {
        match self {
            AppState::Initialized { duration, counter_sleep, counter_tick, auth_token } => {
                AppState::Initialized {
                    duration,
                    counter_sleep,
                    counter_tick,
                    auth_token: Some(token),
                }
            },
            _ => self,
        }
    }

    /// The state the initialize command establishes.
    pub open spec fn spec_initialized() -> AppState {
        AppState::Initialized {
            duration: MIN_DELAY_SECS,
            counter_sleep: 0,
            counter_tick: 0,
            auth_token: None,
        }
    }

    /// The state every run begins in.
    pub fn new() -> (r: Self)
        ensures
            r is Init,
    {
        AppState::Init
    }

    /// The state entered when the initialize command completes: default delay
    /// of one second, both counters at zero, no token.
    pub fn initialized() -> (r: Self)
        ensures
            r == AppState::spec_initialized(),
            r.delay_in_range(),
    {
        AppState::Initialized {
            duration: MIN_DELAY_SECS,
            counter_sleep: 0,
            counter_tick: 0,
            auth_token: None,
        }
    }

    /// Whether the working phase has been reached.
    pub fn is_initialized(&self) -> (r: bool)
        ensures
            r == (*self is Initialized),
    {
        matches!(self, AppState::Initialized { .. })
    }

    /// Counts one completed sleep; outside the initialized phase, or at the
    /// counter's ceiling, the state is left unchanged.
    pub fn incr_sleep(&mut self)
        ensures
            *final(self) == old(self).spec_incr_sleep(),
    {
        if let AppState::Initialized { counter_sleep, .. } = self {
            if *counter_sleep < u32::MAX {
                *counter_sleep = *counter_sleep + 1;
            }
        }
    }

    /// Counts one timer tick; outside the initialized phase, or at the
    /// counter's ceiling, the state is left unchanged.
    pub fn incr_tick(&mut self)
        ensures
            *final(self) == old(self).spec_incr_tick(),
    {
        if let AppState::Initialized { counter_tick, .. } = self {
            if *counter_tick < u64::MAX {
                *counter_tick = *counter_tick + 1;
            }
        }
    }

    /// How many sleeps have completed; defined only in the initialized phase.
    pub fn count_sleep(&self) -> (r: Option<u32>)
        ensures
            r == match *self {
                AppState::Initialized { counter_sleep, .. } => Some(counter_sleep),
                _ => None::<u32>,
            },
    {
        if let AppState::Initialized { counter_sleep, .. } = self {
            Some(*counter_sleep)
        } else {
            None
        }
    }

    /// How many ticks have been observed; defined only in the initialized
    /// phase.
    pub fn count_tick(&self) -> (r: Option<u64>)
        ensures
            r == match *self {
                AppState::Initialized { counter_tick, .. } => Some(counter_tick),
                _ => None::<u64>,
            },
    {
        if let AppState::Initialized { counter_tick, .. } = self {
            Some(*counter_tick)
        } else {
            None
        }
    }

    /// The configured sleep delay in seconds; defined only in the initialized
    /// phase.
    pub fn duration(&self) -> (r: Option<u64>)
        ensures
            r == match *self {
                AppState::Initialized { duration, .. } => Some(duration),
                _ => None::<u64>,
            },
    {
        if let AppState::Initialized { duration, .. } = self {
            Some(*duration)
        } else {
            None
        }
    }

    /// Raises the delay by one second, clamped to the allowed range; a no-op
    /// outside the initialized phase.
    pub fn increment_delay(&mut self)
        ensures
            *final(self) == old(self).spec_increment_delay(),
            final(self).delay_in_range(),
    {
        if let AppState::Initialized { duration, .. } = self {
            if *duration >= MAX_DELAY_SECS {
                *duration = MAX_DELAY_SECS;
            } else if *duration + 1 <= MIN_DELAY_SECS {
                *duration = MIN_DELAY_SECS;
            } else {
                *duration = *duration + 1;
            }
        }
    }

    /// Lowers the delay by one second, clamped to the allowed range: from the
    /// lower bound it stays at the lower bound rather than wrapping. A no-op
    /// outside the initialized phase.
    pub fn decrement_delay(&mut self)
        ensures
            *final(self) == old(self).spec_decrement_delay(),
            final(self).delay_in_range(),
    {
        if let AppState::Initialized { duration, .. } = self {
            if *duration <= MIN_DELAY_SECS {
                *duration = MIN_DELAY_SECS;
            } else if *duration - 1 >= MAX_DELAY_SECS {
                *duration = MAX_DELAY_SECS;
            } else {
                *duration = *duration - 1;
            }
        }
    }

    /// Stores a token obtained by a successful login; a no-op outside the
    /// initialized phase.
    pub fn set_token(&mut self, token: Token)
        ensures
            *final(self) == old(self).spec_set_token(token),
    {
        if let AppState::Initialized { auth_token, .. } = self {
            *auth_token = Some(token);
        }
    }

    /// Whether a login has succeeded since initialization.
    pub fn is_authenticated(&self) -> (r: bool)
        ensures
            r == (self matches AppState::Initialized { auth_token, .. } && auth_token is Some),
    {
        if let AppState::Initialized { auth_token, .. } = self {
            auth_token.is_some()
        } else {
            false
        }
    }
}

impl Default for AppState {
    /// A run starts uninitialized.
    fn default() -> (r: Self)
        ensures
            r is Init,
    {
        AppState::Init
    }
}

/// A sequence of delay adjustments, applied in order: `true` raises the
/// delay, `false` lowers it.
pub open spec fn apply_delay_ops(d: u64, ops: Seq<bool>) -> u64
    decreases ops.len(),
{
    if ops.len() == 0 {
        d
    } else {
        apply_delay_ops(if ops[0] { spec_inc_delay(d) } else { spec_dec_delay(d) },
            ops.drop_first())
    }
}

/// However many adjustments are applied, a delay that starts in the allowed
/// range stays in it.
pub proof fn lemma_delay_stays_in_range(d: u64, ops: Seq<bool>)
    requires
        MIN_DELAY_SECS <= d <= MAX_DELAY_SECS,
    ensures
        MIN_DELAY_SECS <= apply_delay_ops(d, ops) <= MAX_DELAY_SECS,
    decreases ops.len(),
{
    if ops.len() > 0 {
        let d2 = if ops[0] { spec_inc_delay(d) } else { spec_dec_delay(d) };
        lemma_delay_stays_in_range(d2, ops.drop_first());
    }
}

/// Lowering the delay saturates: from the lower bound, any number of
/// decrements leaves it at the lower bound.
pub proof fn lemma_decrement_saturates(n: nat)
    ensures
        apply_delay_ops(MIN_DELAY_SECS, Seq::new(n, |i: int| false)) == MIN_DELAY_SECS,
    decreases n,
{
    let ops = Seq::new(n, |i: int| false);
    if n > 0 {
        assert(ops.drop_first() =~= Seq::new((n - 1) as nat, |i: int| false));
        lemma_decrement_saturates((n - 1) as nat);
    }
}

/// The state after `n` timer ticks.
pub open spec fn apply_ticks(s: AppState, n: nat) -> AppState
    decreases n,
{
    if n == 0 {
        s
    } else {
        apply_ticks(s, (n - 1) as nat).spec_incr_tick()
    }
}

/// The state after `n` completed sleeps.
pub open spec fn apply_sleeps(s: AppState, n: nat) -> AppState
    decreases n,
{
    if n == 0 {
        s
    } else {
        apply_sleeps(s, (n - 1) as nat).spec_incr_sleep()
    }
}

/// From initialization the tick counter starts at zero and grows by exactly
/// one per tick: after `n` ticks it reads `n`, and nothing else has moved.
pub proof fn lemma_ticks_count_exactly(n: nat)
    requires
        n <= u64::MAX,
    ensures
        apply_ticks(AppState::spec_initialized(), n) == (AppState::Initialized {
            duration: MIN_DELAY_SECS,
            counter_sleep: 0,
            counter_tick: n as u64,
            auth_token: None,
        }),
    decreases n,
{
    if n > 0 {
        lemma_ticks_count_exactly((n - 1) as nat);
    }
}

/// From initialization the sleep counter starts at zero and grows by exactly
/// one per completed sleep: after `n` sleeps it reads `n`, and nothing else
/// has moved.
pub proof fn lemma_sleeps_count_exactly(n: nat)
    requires
        n <= u32::MAX,
    ensures
        apply_sleeps(AppState::spec_initialized(), n) == (AppState::Initialized {
            duration: MIN_DELAY_SECS,
            counter_sleep: n as u32,
            counter_tick: 0,
            auth_token: None,
        }),
    decreases n,
{
    if n > 0 {
        lemma_sleeps_count_exactly((n - 1) as nat);
    }
}

} // verus!
