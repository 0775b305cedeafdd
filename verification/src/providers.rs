//! Small content-provider data types: the clock's format choice, the price
//! ticker's target currency and timestamp record, and the engine
//! registration payloads.

use vstd::prelude::*;

use crate::util::str_eq;

verus! {

/// The clock format a user can configure.
#[derive(Clone, Copy, Debug, PartialEq, Eq, Structural)]
pub enum ClockFormat {
    /// 12-hour clock with AM / PM.
    Twelve,
    /// 24-hour clock (military time).
    TwentyFour,
    /// Whatever the current locale uses.
    Locale,
}

/// The clock source: it renders the current time in the configured format.
#[derive(Clone, Copy, Debug, PartialEq, Eq, Structural)]
pub struct Clock {
    pub clock_format: ClockFormat,
}

/// The format read from the `clock.twelve_hour` key: true picks the 12-hour
/// clock, false the 24-hour clock, an unreadable or missing key the locale.
pub fn clock_format_from_config(twelve_hour: Option<bool>) -> (r: ClockFormat)
    ensures
        r == match twelve_hour {
            Some(true) => ClockFormat::Twelve,
            Some(false) => ClockFormat::TwentyFour,
            None => ClockFormat::Locale,
        },
{
    match twelve_hour {
        Some(true) => ClockFormat::Twelve,
        Some(false) => ClockFormat::TwentyFour,
        None => ClockFormat::Locale,
    }
}

impl Clock {
    pub fn new(clock_format: ClockFormat) -> (r: Self)
        ensures
            r.clock_format == clock_format,
    {
        Clock { clock_format }
    }

    /// The strftime pattern the configured format renders with.
    pub fn format_pattern(&self) -> (r: &'static str)
        ensures
            r@ == match self.clock_format {
                ClockFormat::Twelve => "%I:%M:%S %p"@,
                ClockFormat::TwentyFour => "%H:%M:%S"@,
                ClockFormat::Locale => "%X"@,
            },
    {
        match self.clock_format {
            ClockFormat::Twelve => "%I:%M:%S %p",
            ClockFormat::TwentyFour => "%H:%M:%S",
            ClockFormat::Locale => "%X",
        }
    }
}

/// The currency the price ticker displays.
#[derive(Clone, Copy, Debug, PartialEq, Eq, Structural)]
pub enum Target {
    Eur,
    Usd,
    Gbp,
}

/// A currency string the ticker does not know.
#[derive(Clone, Copy, Debug, PartialEq, Eq, Structural)]
pub struct UnknownCurrency;

impl Target {
    /// The fallback currency.
    pub fn default_target() -> (r: Self)
        ensures
            r == Target::Usd,
    {
        Target::Usd
    }

    /// Reads a configured currency name; exactly the documented spellings are
    /// accepted.
    pub fn parse(value: &str) -> (r: Result<Target, UnknownCurrency>)
        ensures
            r == if value@ == "USD"@ || value@ == "usd"@ || value@ == "dollar"@ {
                Ok::<Target, UnknownCurrency>(Target::Usd)
            } else if value@ == "eur"@ || value@ == "EUR"@ || value@ == "euro"@
                || value@ == "Euro"@ {
                Ok::<Target, UnknownCurrency>(Target::Eur)
            } else if value@ == "gbp"@ || value@ == "GBP"@ {
                Ok::<Target, UnknownCurrency>(Target::Gbp)
            } else {
                Err::<Target, UnknownCurrency>(UnknownCurrency)
            },
    {
        if str_eq(value, "USD") || str_eq(value, "usd") || str_eq(value, "dollar") {
            Ok(Target::Usd)
        } else if str_eq(value, "eur") || str_eq(value, "EUR") || str_eq(value, "euro")
            || str_eq(value, "Euro") {
            Ok(Target::Eur)
        } else if str_eq(value, "gbp") || str_eq(value, "GBP") {
            Ok(Target::Gbp)
        } else {
            Err(UnknownCurrency)
        }
    }

    /// Formats a rate string with this currency's symbol: a prefixed dollar
    /// or pound sign, a suffixed euro sign.
    pub fn format(self, rate: &str) -> (r: String)
        ensures
            r@ == match self {
                Target::Eur => rate@ + "\u{20ac}"@,
                Target::Usd => "$"@ + rate@,
                Target::Gbp => "\u{a3}"@ + rate@,
            },
    {
        match self {
            Target::Eur => {
                let mut s = rate.to_owned();
                s.append("\u{20ac}");
                s
            },
            Target::Usd => {
                let mut s = "$".to_owned();
                s.append(rate);
                s
            },
            Target::Gbp => {
                let mut s = "\u{a3}".to_owned();
                s.append(rate);
                s
            },
        }
    }
}

/// The price feed's timestamp record, as plain strings.
#[derive(Clone, Debug)]
pub struct Time {
    pub updated: String,
    pub updated_iso: String,
    pub updateduk: String,
}

impl Time {
    pub fn new(updated: String, updated_iso: String, updateduk: String) -> (r: Self)
        ensures
            r.updated == updated,
            r.updated_iso == updated_iso,
            r.updateduk == updateduk,
    {
        Time { updated, updated_iso, updateduk }
    }
}

/// The engine discovery record: where the vendor service listens.
#[derive(Clone, Debug)]
pub struct CoreProps {
    pub address: String,
}

/// The registration payload sent to the vendor engine.
#[derive(Clone, Debug)]
pub struct HandleRegistration {
    pub game: String,
    pub game_display_name: String,
    pub developer: String,
}

impl Default for HandleRegistration {
    /// The registration this program identifies itself with.
    fn default() -> (r: Self)
        ensures
            r.game@ == "apex-tux"@,
            r.game_display_name@ == "apex-tux"@,
            r.developer@ == "not-jan"@,
    {
        HandleRegistration {
            game: "apex-tux".to_owned(),
            game_display_name: "apex-tux".to_owned(),
            developer: "not-jan".to_owned(),
        }
    }
}

} // verus!
