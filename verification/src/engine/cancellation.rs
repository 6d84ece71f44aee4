//! Why and whether a job stops early.
use vstd::prelude::*;

verus! {

/// Why a job was cancelled.
#[derive(Debug, Clone, Copy, PartialEq, Eq, Structural)]
pub enum CancelReason {
    ScreenOn,
    UserActivity,
    ThermalCritical,
    BatteryLow,
    Unplugged,
    Shutdown,
    Timeout,
    ManualCancel,
}

impl CancelReason {
    /// The number that stands for a reason. No reason has the number zero.
    pub open spec fn code(self) -> u8 {
        match self {
            CancelReason::ScreenOn => 1,
            CancelReason::UserActivity => 2,
            CancelReason::ThermalCritical => 3,
            CancelReason::BatteryLow => 4,
            CancelReason::Unplugged => 5,
            CancelReason::Shutdown => 6,
            CancelReason::Timeout => 7,
            CancelReason::ManualCancel => 8,
        }
    }

    /// The name of a reason.
    pub open spec fn name(self) -> Seq<char> {
        match self {
            CancelReason::ScreenOn => "ScreenOn"@,
            CancelReason::UserActivity => "UserActivity"@,
            CancelReason::ThermalCritical => "ThermalCritical"@,
            CancelReason::BatteryLow => "BatteryLow"@,
            CancelReason::Unplugged => "Unplugged"@,
            CancelReason::Shutdown => "Shutdown"@,
            CancelReason::Timeout => "Timeout"@,
            CancelReason::ManualCancel => "ManualCancel"@,
        }
    }

    fn to_code(self) -> (r: u8)
        ensures
            r == self.code(),
    {
        match self {
            CancelReason::ScreenOn => 1,
            CancelReason::UserActivity => 2,
            CancelReason::ThermalCritical => 3,
            CancelReason::BatteryLow => 4,
            CancelReason::Unplugged => 5,
            CancelReason::Shutdown => 6,
            CancelReason::Timeout => 7,
            CancelReason::ManualCancel => 8,
        }
    }

    fn from_code(code: u8) -> (r: Option<Self>)
        ensures
            r is Some <==> 1 <= code <= 8,
            r is Some ==> r->0.code() == code,
    {
        match code {
            1 => Some(CancelReason::ScreenOn),
            2 => Some(CancelReason::UserActivity),
            3 => Some(CancelReason::ThermalCritical),
            4 => Some(CancelReason::BatteryLow),
            5 => Some(CancelReason::Unplugged),
            6 => Some(CancelReason::Shutdown),
            7 => Some(CancelReason::Timeout),
            8 => Some(CancelReason::ManualCancel),
            _ => None,
        }
    }

    pub fn as_str(&self) -> (r: &'static str)
        ensures
            r@ == self.name(),
    {
        match self {
            CancelReason::ScreenOn => "ScreenOn",
            CancelReason::UserActivity => "UserActivity",
            CancelReason::ThermalCritical => "ThermalCritical",
            CancelReason::BatteryLow => "BatteryLow",
            CancelReason::Unplugged => "Unplugged",
            CancelReason::Shutdown => "Shutdown",
            CancelReason::Timeout => "Timeout",
            CancelReason::ManualCancel => "ManualCancel",
        }
    }
}

/// Why a job waits.
#[derive(Debug, Clone, Copy, PartialEq, Eq, Structural)]
pub enum PauseReason {
    ThermalHot,
    CpuPressureHigh,
    IoPressureHigh,
}

/// Says whether a job is to stop, and why. The reason is kept as a number, zero
/// where there is none.
#[derive(Debug)]
pub struct CancellationToken {
    cancelled: bool,
    reason_code: u8,
}

/// What a token says.
pub struct TokenModel {
    pub cancelled: bool,
    pub reason: Option<CancelReason>,
}

impl TokenModel {
    /// A token that nobody has cancelled.
    pub open spec fn fresh() -> TokenModel {
        TokenModel { cancelled: false, reason: None }
    }

    /// The token after one more cancellation: the first reason stays.
    pub open spec fn after_cancel(self, reason: CancelReason) -> TokenModel {
        TokenModel {
            cancelled: true,
            reason: if self.reason is Some {
                self.reason
            } else {
                Some(reason)
            },
        }
    }
}

impl View for CancellationToken {
    type V = TokenModel;

    closed spec fn view(&self) -> TokenModel {
        TokenModel {
            cancelled: self.cancelled,
            reason: if 1 <= self.reason_code <= 8 {
                Some(choose|reason: CancelReason| reason.code() == self.reason_code)
            } else {
                None
            },
        }
    }
}

impl CancellationToken {
    #[verifier::type_invariant]
    spec fn holds_a_reason(self) -> bool {
        self.reason_code <= 8
    }

    pub fn new() -> (r: Self)
        ensures
            r@ == TokenModel::fresh(),
    {
        CancellationToken { cancelled: false, reason_code: 0 }
    }

    pub fn is_cancelled(&self) -> (r: bool)
        ensures
            r == self@.cancelled,
    {
        self.cancelled
    }

    /// Cancels for a reason. The first reason stays.
    pub fn cancel_with_reason(&mut self, reason: CancelReason)
        ensures
            final(self)@ == old(self)@.after_cancel(reason),
    {
        proof {
            use_type_invariant(&*self);
            lemma_code_tells(reason);
        }
        self.cancelled = true;
        if self.reason_code == 0 {
            self.reason_code = reason.to_code();
        }
    }

    /// Cancels by hand.
    pub fn cancel(&mut self)
        ensures
            final(self)@ == old(self)@.after_cancel(CancelReason::ManualCancel),
    {
        self.cancel_with_reason(CancelReason::ManualCancel);
    }

    pub fn get_cancel_reason(&self) -> (r: Option<CancelReason>)
        ensures
            r == self@.reason,
    {
        let r = CancelReason::from_code(self.reason_code);
        proof {
            if r is Some {
                lemma_code_tells(r->0);
            }
        }
        r
    }

    /// Takes back every cancellation.
    pub fn reset(&mut self)
        ensures
            final(self)@ == TokenModel::fresh(),
    {
        *self = CancellationToken::new();
    }
}

impl Default for CancellationToken {
    fn default() -> (r: Self)
        ensures
            r@ == TokenModel::fresh(),
    {
        CancellationToken::new()
    }
}

proof fn lemma_code_tells(reason: CancelReason)
    ensures
        (choose|other: CancelReason| other.code() == reason.code()) == reason,
{
    let other = choose|other: CancelReason| other.code() == reason.code();
    assert(other.code() == reason.code());
    law_reasons_have_their_own_codes(reason, other);
}

/// Two reasons with one number are one reason.
pub proof fn law_reasons_have_their_own_codes(a: CancelReason, b: CancelReason)
    requires
        a.code() == b.code(),
    ensures
        a == b,
{
}

/// The first of two reasons is the one that stays, and a cancelled token stays
/// cancelled.
pub proof fn law_first_reason_stays(token: TokenModel, first: CancelReason, second: CancelReason)
    ensures
        token.after_cancel(first).after_cancel(second) == token.after_cancel(first),
        token.after_cancel(first).cancelled,
        token.after_cancel(first).reason is Some,
{
}

/// A token is cancelled from the first cancellation on, for the first reason given,
/// until it is reset; cancelling by hand is a reason as any other.
pub proof fn law_token_tells_the_first_reason(
    token: &mut CancellationToken,
    reason: CancelReason,
    by_hand: &mut CancellationToken,
    back: &mut CancellationToken,
)
    requires
        call_ensures(CancellationToken::cancel_with_reason, (token, reason), ()),
        call_ensures(CancellationToken::cancel, (by_hand,), ()),
        call_ensures(CancellationToken::reset, (back,), ()),
    ensures
        final(token)@.cancelled,
        old(token)@.reason is None ==> final(token)@.reason == Some(reason),
        old(token)@.reason is Some ==> final(token)@.reason == old(token)@.reason,
        final(by_hand)@.cancelled,
        old(by_hand)@.reason is None ==> final(by_hand)@.reason == Some(CancelReason::ManualCancel),
        old(by_hand)@.reason is Some ==> final(by_hand)@.reason == old(by_hand)@.reason,
        !final(back)@.cancelled,
        final(back)@.reason is None,
{
}

/// A new token is not cancelled, and a token tells whether and why it is.
pub proof fn law_token_begins_uncancelled(
    fresh: CancellationToken,
    token: &CancellationToken,
    cancelled: bool,
    reason: Option<CancelReason>,
)
    requires
        call_ensures(CancellationToken::new, (), fresh),
        call_ensures(CancellationToken::is_cancelled, (token,), cancelled),
        call_ensures(CancellationToken::get_cancel_reason, (token,), reason),
    ensures
        !fresh@.cancelled,
        fresh@.reason is None,
        cancelled == token@.cancelled,
        reason == token@.reason,
{
}

/// Each reason is shown under its own name.
pub proof fn law_reasons_are_shown_by_name(reason: &CancelReason, r: &'static str)
    requires
        call_ensures(CancelReason::as_str, (reason,), r),
    ensures
        *reason == CancelReason::ScreenOn ==> r@ == "ScreenOn"@,
        *reason == CancelReason::UserActivity ==> r@ == "UserActivity"@,
        *reason == CancelReason::ThermalCritical ==> r@ == "ThermalCritical"@,
        *reason == CancelReason::BatteryLow ==> r@ == "BatteryLow"@,
        *reason == CancelReason::Unplugged ==> r@ == "Unplugged"@,
        *reason == CancelReason::Shutdown ==> r@ == "Shutdown"@,
        *reason == CancelReason::Timeout ==> r@ == "Timeout"@,
        *reason == CancelReason::ManualCancel ==> r@ == "ManualCancel"@,
{
}

} // verus!
