//! How rare a coin is, and what that makes it worth.

use vstd::prelude::*;
use vstd::arithmetic::power::pow;
use crate::chance::random_between;
use crate::text::tdiv;

verus! {

/// The rarity of a coin, from none at all up to the gnome.
#[derive(Hash, PartialEq, Eq, Structural, PartialOrd, Clone, Copy, Debug, Default)]
pub enum Rarity {
    #[default]
    NONE,
    COMMON,
    UNCOMMON,
    RARE,
    LEGENDARY,
    MYTHICAL,
    GNOME,
}

/// The rarity that an identifier names; anything but 1 to 6 names none.
pub open spec fn rarity_of(id: int) -> Rarity {
    if id == 1 { Rarity::COMMON }
    else if id == 2 { Rarity::UNCOMMON }
    else if id == 3 { Rarity::RARE }
    else if id == 4 { Rarity::LEGENDARY }
    else if id == 5 { Rarity::MYTHICAL }
    else if id == 6 { Rarity::GNOME }
    else { Rarity::NONE }
}

/// The rarity that `Rarity::generate` settles on for a draw `x` of
/// `1..1_000_000`: six minus the number of digits after the first.
pub open spec fn rarity_for_draw(x: int) -> Rarity {
    if x < 10 { Rarity::GNOME }
    else if x < 100 { Rarity::MYTHICAL }
    else if x < 1000 { Rarity::LEGENDARY }
    else if x < 10000 { Rarity::RARE }
    else if x < 100000 { Rarity::UNCOMMON }
    else { Rarity::COMMON }
}

impl Rarity {
    /// The rarity's identifier, 0 (none) to 6 (gnome).
    pub open spec fn id_of(self) -> int {
        match self {
            Rarity::NONE => 0,
            Rarity::COMMON => 1,
            Rarity::UNCOMMON => 2,
            Rarity::RARE => 3,
            Rarity::LEGENDARY => 4,
            Rarity::MYTHICAL => 5,
            Rarity::GNOME => 6,
        }
    }

    /// The rarity's word, with the space that follows it in messages.
    pub open spec fn name_view(self) -> Seq<char> {
        match self {
            Rarity::NONE => "none "@,
            Rarity::COMMON => ""@,
            Rarity::UNCOMMON => "uncommon "@,
            Rarity::RARE => "_rare_ "@,
            Rarity::LEGENDARY => "**legendary** "@,
            Rarity::MYTHICAL => "***mythical*** "@,
            Rarity::GNOME => "gnome "@,
        }
    }

    /// The rarity's word behind its article.
    pub open spec fn a_name_view(self) -> Seq<char> {
        match self {
            Rarity::NONE => self.name_view(),
            Rarity::UNCOMMON => "an "@ + self.name_view(),
            _ => "a "@ + self.name_view(),
        }
    }

    /// The emoji that announces a coin of this rarity.
    pub open spec fn emoji_view(self) -> Seq<char> {
        match self {
            Rarity::COMMON => "<a:bronzecoin:844545666201288755>"@,
            Rarity::UNCOMMON => "<a:silvercoin:844545665911881788>"@,
            Rarity::RARE => "<a:gold:1038495846074941440>"@,
            Rarity::LEGENDARY => "<a:redcoin:844545670709772290>"@,
            Rarity::MYTHICAL => "<a:white:1136340312529318018>"@,
            Rarity::GNOME => "<:gnomeZoom:1079734801831047248>"@,
            Rarity::NONE => "<:mastergirBubby:757618593725808710>"@,
        }
    }

    /// Ten to the power of the identifier.
    pub open spec fn exponent_of(self) -> int {
        pow(10, self.id_of() as nat)
    }

    /// Get the coin's ID
    pub fn id(&self) -> (r: i64)
        ensures
            r == self.id_of(),
    {
        match self {
            Rarity::NONE => 0,
            Rarity::COMMON => 1,
            Rarity::UNCOMMON => 2,
            Rarity::RARE => 3,
            Rarity::LEGENDARY => 4,
            Rarity::MYTHICAL => 5,
            Rarity::GNOME => 6,
        }
    }

    /// Get the coin's name
    pub fn name(&self) -> (r: &'static str)
        ensures
            r@ == self.name_view(),
    {
        match self {
            Rarity::NONE => "none ",
            Rarity::COMMON => "",
            Rarity::UNCOMMON => "uncommon ",
            Rarity::RARE => "_rare_ ",
            Rarity::LEGENDARY => "**legendary** ",
            Rarity::MYTHICAL => "***mythical*** ",
            Rarity::GNOME => "gnome ",
        }
    }

    /// The coin's name with its indefinite article.
    pub fn a_name(&self) -> (r: String)
        ensures
            r@ == self.a_name_view(),
    {
        let mut r = match self {
            Rarity::NONE => String::new(),
            Rarity::UNCOMMON => String::from_str("an "),
            _ => String::from_str("a "),
        };
        r.append(self.name());
        r
    }

    /// The coin's emoji.
    pub fn emoji(&self) -> (r: &'static str)
        ensures
            r@ == self.emoji_view(),
    {
        match self {
            Rarity::COMMON => "<a:bronzecoin:844545666201288755>",
            Rarity::UNCOMMON => "<a:silvercoin:844545665911881788>",
            Rarity::RARE => "<a:gold:1038495846074941440>",
            Rarity::LEGENDARY => "<a:redcoin:844545670709772290>",
            Rarity::MYTHICAL => "<a:white:1136340312529318018>",
            Rarity::GNOME => "<:gnomeZoom:1079734801831047248>",
            _ => "<:mastergirBubby:757618593725808710>",
        }
    }

    /// Get a coin's rarity from its ID
    pub fn from_id(id: i64) -> (r: Rarity)
        ensures
            r == rarity_of(id as int),
    {
        match id {
            1 => Rarity::COMMON,
            2 => Rarity::UNCOMMON,
            3 => Rarity::RARE,
            4 => Rarity::LEGENDARY,
            5 => Rarity::MYTHICAL,
            6 => Rarity::GNOME,
            _ => Rarity::NONE,
        }
    }

    /// Get $10^{\text{item ID}}$
    pub fn get_exponent(&self) -> (r: i64)
        ensures
            r == self.exponent_of(),
    {
        proof {
            vstd::arithmetic::power::lemma_pow0(10);
            reveal_with_fuel(pow, 7);
        }
        match self {
            Rarity::NONE => 1,
            Rarity::COMMON => 10,
            Rarity::UNCOMMON => 100,
            Rarity::RARE => 1_000,
            Rarity::LEGENDARY => 10_000,
            Rarity::MYTHICAL => 100_000,
            Rarity::GNOME => 1_000_000,
        }
    }

    /// Get the highest ID
    pub fn max_id() -> (r: i64)
        ensures
            r == 6,
    {
        Rarity::max_rarity().id()
    }

    /// Get the highest value rarity
    pub fn max_rarity() -> (r: Rarity)
        ensures
            r == Rarity::GNOME,
    {
        Rarity::GNOME
    }

    /// The rarity that a draw `x` of `1..1_000_000` decides: six minus
    /// `floor(log10(x))`.
    pub fn for_draw(x: i64) -> (r: Rarity)
        requires
            1 <= x < 1_000_000,
        ensures
            r == rarity_for_draw(x as int),
    {
        let digits_after_first: i64 = if x < 10 {
            0
        } else if x < 100 {
            1
        } else if x < 1000 {
            2
        } else if x < 10000 {
            3
        } else if x < 100000 {
            4
        } else {
            5
        };
        Rarity::from_id(Rarity::max_id() - digits_after_first)
    }

    /// Decide a random rarity
    pub fn generate() -> (r: Rarity)
        ensures
            exists|x: int| 1 <= x < 1_000_000 && r == rarity_for_draw(x),
            r != Rarity::NONE,
    {
        let maximum: i64 = Rarity::max_rarity().get_exponent();
        proof {
            reveal_with_fuel(pow, 7);
        }
        let minimum = 1i64;
        let x = random_between(minimum, maximum);
        Rarity::for_draw(x)
    }

    /// The value of a coin of this rarity, given a draw `d` of
    /// `exponent / 20 .. next exponent / 20` where one is needed: one for a
    /// common coin, minus fifty for the gnome, and half the draw otherwise.
    pub open spec fn value_for_draw(self, d: int) -> int {
        match self {
            Rarity::COMMON => 1,
            Rarity::GNOME => -50,
            _ => tdiv(d, 2),
        }
    }

    /// The range a value draw is taken from: from a twentieth of this
    /// rarity's exponent up to a twentieth of the next one's.
    pub open spec fn draw_low(self) -> int {
        self.exponent_of() / 20
    }

    /// The exclusive upper end of the value draw.
    pub open spec fn draw_high(self) -> int {
        rarity_of(self.id_of() + 1).exponent_of() / 20
    }

    /// The coin value for a given draw, as `calculate_value` computes it.
    pub fn value_with_draw(&self, d: i64) -> (r: i64)
        ensures
            r == self.value_for_draw(d as int),
    {
        match self {
            Rarity::COMMON => 1,
            Rarity::GNOME => -50,
            _ => d / 2,
        }
    }

    /// A random value for a coin of this rarity.
    pub fn calculate_value(&self) -> (r: i64)
        requires
            *self != Rarity::NONE,
        ensures
            *self == Rarity::COMMON ==> r == 1,
            *self == Rarity::GNOME ==> r == -50,
            *self != Rarity::COMMON && *self != Rarity::GNOME ==> exists|d: int|
                self.draw_low() <= d < self.draw_high() && r == self.value_for_draw(d),
    {
        match self {
            Rarity::COMMON => 1,
            Rarity::GNOME => -50,
            _ => {
                proof {
                    reveal_with_fuel(pow, 7);
                }
                let low = self.get_exponent() / 20;
                let high = (*self + 1).get_exponent() / 20;
                let d = random_between(low, high);
                self.value_with_draw(d)
            },
        }
    }
}

impl std::ops::Add<i64> for Rarity {
    type Output = Self;

    fn add(self, rhs: i64) -> (r: Self) {
        Self::from_id(self.id() + rhs)
    }
}

impl vstd::std_specs::ops::AddSpecImpl<i64> for Rarity {
    open spec fn obeys_add_spec() -> bool {
        true
    }

    open spec fn add_req(self, rhs: i64) -> bool {
        i64::MIN <= self.id_of() + rhs <= i64::MAX
    }

    open spec fn add_spec(self, rhs: i64) -> Self {
        rarity_of(self.id_of() + rhs)
    }
}

impl std::ops::Add<Rarity> for Rarity {
    type Output = Self;

    fn add(self, rhs: Self) -> (r: Self) {
        self + rhs.id()
    }
}

impl vstd::std_specs::ops::AddSpecImpl<Rarity> for Rarity {
    open spec fn obeys_add_spec() -> bool {
        true
    }

    open spec fn add_req(self, rhs: Rarity) -> bool {
        true
    }

    open spec fn add_spec(self, rhs: Rarity) -> Self {
        rarity_of(self.id_of() + rhs.id_of())
    }
}

impl std::ops::Sub<Rarity> for Rarity {
    type Output = Self;

    fn sub(self, rhs: Self) -> (r: Self) {
        Self::from_id(self.id() - rhs.id())
    }
}

impl vstd::std_specs::ops::SubSpecImpl<Rarity> for Rarity {
    open spec fn obeys_sub_spec() -> bool {
        true
    }

    open spec fn sub_req(self, rhs: Rarity) -> bool {
        true
    }

    open spec fn sub_spec(self, rhs: Rarity) -> Self {
        rarity_of(self.id_of() - rhs.id_of())
    }
}

} // verus!
