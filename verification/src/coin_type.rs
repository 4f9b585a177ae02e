//! The kinds of coin, with their values and the ranges their worth is
//! drawn from.

use vstd::prelude::*;
use vstd::arithmetic::power::pow;
use std::ops::Range;
use crate::chance::random_between;

verus! {

/// A kind of coin, from none at all up to the gnome.
#[derive(PartialEq, Eq, Structural, Clone, Copy, Debug)]
pub enum CoinType {
    NONE,
    COMMON,
    UNCOMMON,
    RARE,
    LEGENDARY,
    MYTHICAL,
    GNOME,
}

/// The kind that a value names; anything but 1 to 6 names none.
pub open spec fn coin_type_of(val: int) -> CoinType {
    if val == 1 { CoinType::COMMON }
    else if val == 2 { CoinType::UNCOMMON }
    else if val == 3 { CoinType::RARE }
    else if val == 4 { CoinType::LEGENDARY }
    else if val == 5 { CoinType::MYTHICAL }
    else if val == 6 { CoinType::GNOME }
    else { CoinType::NONE }
}

/// `floor(log10(x))` for a positive `x`: the number of digits after the
/// first.
pub open spec fn log10_floor(x: int) -> int
    decreases x,
{
    if x < 10 { 0 } else { 1 + log10_floor(x / 10) }
}

/// The kind that `CoinType::choose_coin` settles on for a draw `x`:
/// six minus `floor(log10(x))`.
pub open spec fn coin_for_draw_spec(x: int) -> CoinType {
    coin_type_of(6 - log10_floor(x))
}

impl CoinType {
    /// The kind's basic value, 0 (none) to 6 (gnome).
    pub open spec fn value_of(self) -> int {
        match self {
            CoinType::NONE => 0,
            CoinType::COMMON => 1,
            CoinType::UNCOMMON => 2,
            CoinType::RARE => 3,
            CoinType::LEGENDARY => 4,
            CoinType::MYTHICAL => 5,
            CoinType::GNOME => 6,
        }
    }

    /// The first value the worth of a coin of this kind is drawn from.
    pub open spec fn range_start(self) -> int {
        if self == CoinType::COMMON {
            1
        } else {
            let half = pow(10, (self.value_of() - 1) as nat) / 2;
            if half > 5 { half } else { 5 }
        }
    }

    /// The value after the last one the worth is drawn from.
    pub open spec fn range_end(self) -> int {
        if self == CoinType::COMMON {
            2
        } else {
            pow(10, self.value_of() as nat) / 10 * 3
        }
    }

    /// The phrase that names a coin of this kind.
    pub open spec fn descriptor_view(self) -> Seq<char> {
        match self {
            CoinType::NONE => "NO COIN !?!?!?!?!?!?"@,
            CoinType::COMMON => "a coin"@,
            CoinType::UNCOMMON => "an *Uncommon Coin*"@,
            CoinType::RARE => "a **Rare Coin**"@,
            CoinType::LEGENDARY => "a ***Legendary Coin***"@,
            CoinType::MYTHICAL => "a ***MYTHICAL COIN***"@,
            CoinType::GNOME => "the GNOME from GAMES"@,
        }
    }

    /// The kind's plain name.
    pub open spec fn name_view(self) -> Seq<char> {
        match self {
            CoinType::NONE => "no coin"@,
            CoinType::COMMON => "coin"@,
            CoinType::UNCOMMON => "uncommon coin"@,
            CoinType::RARE => "rare coin"@,
            CoinType::LEGENDARY => "legendary coin"@,
            CoinType::MYTHICAL => "mythical coin"@,
            CoinType::GNOME => "gnome"@,
        }
    }

    /// The basic integer value of the coin.
    pub fn value(&self) -> (r: i32)
        ensures
            r == self.value_of(),
    {
        match *self {
            CoinType::NONE => 0,
            CoinType::COMMON => 1,
            CoinType::UNCOMMON => 2,
            CoinType::RARE => 3,
            CoinType::LEGENDARY => 4,
            CoinType::MYTHICAL => 5,
            CoinType::GNOME => 6,
        }
    }

    /// Returns a coin value based on the integer submitted
    pub fn from_value(val: i32) -> (r: CoinType)
        ensures
            r == coin_type_of(val as int),
    {
        match val {
            1 => CoinType::COMMON,
            2 => CoinType::UNCOMMON,
            3 => CoinType::RARE,
            4 => CoinType::LEGENDARY,
            5 => CoinType::MYTHICAL,
            6 => CoinType::GNOME,
            _ => CoinType::NONE,
        }
    }

    /// The maximum value of the enum
    pub fn max() -> (r: i32)
        ensures
            r == 6,
    {
        CoinType::GNOME.value()
    }

    /// 10 raised to the power of `value()`.
    pub fn power_zeros(&self) -> (r: i32)
        ensures
            r == pow(10, self.value_of() as nat),
    {
        proof {
            reveal_with_fuel(pow, 7);
        }
        match *self {
            CoinType::NONE => 1,
            CoinType::COMMON => 10,
            CoinType::UNCOMMON => 100,
            CoinType::RARE => 1000,
            CoinType::LEGENDARY => 10000,
            CoinType::MYTHICAL => 100000,
            CoinType::GNOME => 1000000,
        }
    }

    /// The range with which a random value can be calculated: `1..2` for a
    /// common coin, and from half of a tenth of `power_zeros()` (at least
    /// 5) up to three tenths of it otherwise.
    pub fn value_range(&self) -> (r: Range<i32>)
        requires
            *self != CoinType::NONE,
        ensures
            r.start == self.range_start(),
            r.end == self.range_end(),
            r.start < r.end,
    {
        proof {
            reveal_with_fuel(pow, 7);
        }
        match *self {
            CoinType::COMMON => 1..2,
            _ => {
                let tenth = self.power_zeros() / 10;
                let half = tenth / 2;
                let start = if half > 5 { half } else { 5 };
                start..(tenth * 3)
            },
        }
    }

    /// Generate a random value using `value_range`.
    pub fn generate_value(&self) -> (r: i32)
        requires
            *self != CoinType::NONE,
        ensures
            self.range_start() <= r < self.range_end(),
    {
        let range = self.value_range();
        random_between(range.start as i64, range.end as i64) as i32
    }

    /// The kind a draw `x` of `1..1_000_000` decides: six minus
    /// `floor(log10(x))`.
    pub fn coin_for_draw(x: i32) -> (r: CoinType)
        requires
            1 <= x,
        ensures
            r == coin_for_draw_spec(x as int),
    {
        proof {
            reveal_with_fuel(log10_floor, 11);
        }
        let digits_after_first: i32 = if x < 10 {
            0
        } else if x < 100 {
            1
        } else if x < 1000 {
            2
        } else if x < 10000 {
            3
        } else if x < 100000 {
            4
        } else if x < 1000000 {
            5
        } else if x < 10000000 {
            6
        } else if x < 100000000 {
            7
        } else if x < 1000000000 {
            8
        } else {
            9
        };
        assert(digits_after_first == log10_floor(x as int));
        CoinType::from_value(CoinType::max() - digits_after_first)
    }

    /// Randomly decides one coin out of the list available.
    ///
    /// A random number is decided between 1 and 10^(`CoinType::max()`), and
    /// the coin decided on is `CoinType::max() - floor(log10)` of that
    /// number.
    ///
    /// *For example:*
    ///
    /// The maximum is 6. A random number between 1 and 1000000 is decided on.
    ///
    /// It lands on 5382. floor(log10(5382)) = 3. 6 - 3 = 3, so
    /// a RARE coin is selected.
    pub fn choose_coin() -> (r: CoinType)
        ensures
            exists|x: int| 1 <= x < 1_000_000 && r == coin_for_draw_spec(x),
    {
        let top = CoinType::GNOME.power_zeros();
        proof {
            reveal_with_fuel(pow, 7);
        }
        let x = random_between(1, top as i64) as i32;
        CoinType::coin_for_draw(x)
    }

    /// The phrase that names a coin of this kind.
    pub fn coin_descriptor(&self) -> (r: String)
        ensures
            r@ == self.descriptor_view(),
    {
        String::from_str(match *self {
            CoinType::NONE => "NO COIN !?!?!?!?!?!?",
            CoinType::COMMON => "a coin",
            CoinType::UNCOMMON => "an *Uncommon Coin*",
            CoinType::RARE => "a **Rare Coin**",
            CoinType::LEGENDARY => "a ***Legendary Coin***",
            CoinType::MYTHICAL => "a ***MYTHICAL COIN***",
            CoinType::GNOME => "the GNOME from GAMES",
        })
    }

    /// The kind's plain name, as it is displayed.
    pub fn to_string(&self) -> (r: String)
        ensures
            r@ == self.name_view(),
    {
        String::from_str(match *self {
            CoinType::NONE => "no coin",
            CoinType::COMMON => "coin",
            CoinType::UNCOMMON => "uncommon coin",
            CoinType::RARE => "rare coin",
            CoinType::LEGENDARY => "legendary coin",
            CoinType::MYTHICAL => "mythical coin",
            CoinType::GNOME => "gnome",
        })
    }
}

} // verus!
