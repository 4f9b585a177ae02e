//! The flavour text of coin tricks and arena training: the lists the
//! game draws its words from, and the shapes its sentences take.

use vstd::prelude::*;
use crate::chance::random_index;
use crate::text::str_views;

use crate::games::TrickState;

verus! {

/// The moves of a skateboard trick.
pub open spec fn kickflips() -> Seq<Seq<char>> {
    seq![
        "n awesome kickflip"@,
        " frontflip for the ages"@,
        " quintuple grind rail with 100x score multiplier"@,
    ]
}

fn kickflips_list() -> (v: Vec<&'static str>)
    ensures
        str_views(v@) == kickflips(),
        v@.len() == 3,
{
    let v = vec![
        "n awesome kickflip",
        " frontflip for the ages",
        " quintuple grind rail with 100x score multiplier",
    ];
    assert(str_views(v@) =~= kickflips());
    v
}

/// A random entry of `kickflips`.
pub fn pick_kickflips() -> (r: &'static str)
    ensures
        kickflips().contains(r@),
{
    let v = kickflips_list();
    let i = random_index(v.len());
    assert(str_views(v@)[i as int] == v@[i as int]@);
    v[i]
}

/// What a skateboard trick launches off.
pub open spec fn launch_pads() -> Seq<Seq<char>> {
    seq![
        "little puppy"@,
        "wide-eyed baby"@,
        "gnome"@,
        "pedestrian"@,
    ]
}

fn launch_pads_list() -> (v: Vec<&'static str>)
    ensures
        str_views(v@) == launch_pads(),
        v@.len() == 4,
{
    let v = vec![
        "little puppy",
        "wide-eyed baby",
        "gnome",
        "pedestrian",
    ];
    assert(str_views(v@) =~= launch_pads());
    v
}

/// A random entry of `launch_pads`.
pub fn pick_launch_pads() -> (r: &'static str)
    ensures
        launch_pads().contains(r@),
{
    let v = launch_pads_list();
    let i = random_index(v.len());
    assert(str_views(v@)[i as int] == v@[i as int]@);
    v[i]
}

/// Which part of it (mostly none in particular).
pub open spec fn pad_parts() -> Seq<Seq<char>> {
    seq![
        ""@,
        ""@,
        ""@,
        ""@,
        "'s head"@,
        "'s propeller hat"@,
        "'s car"@,
        "'s super-awesome mecha suit"@,
    ]
}

fn pad_parts_list() -> (v: Vec<&'static str>)
    ensures
        str_views(v@) == pad_parts(),
        v@.len() == 8,
{
    let v = vec![
        "",
        "",
        "",
        "",
        "'s head",
        "'s propeller hat",
        "'s car",
        "'s super-awesome mecha suit",
    ];
    assert(str_views(v@) =~= pad_parts());
    v
}

/// A random entry of `pad_parts`.
pub fn pick_pad_parts() -> (r: &'static str)
    ensures
        pad_parts().contains(r@),
{
    let v = pad_parts_list();
    let i = random_index(v.len());
    assert(str_views(v@)[i as int] == v@[i as int]@);
    v[i]
}

/// What a trick opens.
pub open spec fn containers() -> Seq<Seq<char>> {
    seq![
        "can"@,
        "tin"@,
        "bottle"@,
        "cardboard box"@,
        "packet"@,
    ]
}

fn containers_list() -> (v: Vec<&'static str>)
    ensures
        str_views(v@) == containers(),
        v@.len() == 5,
{
    let v = vec![
        "can",
        "tin",
        "bottle",
        "cardboard box",
        "packet",
    ];
    assert(str_views(v@) =~= containers());
    v
}

/// A random entry of `containers`.
pub fn pick_containers() -> (r: &'static str)
    ensures
        containers().contains(r@),
{
    let v = containers_list();
    let i = random_index(v.len());
    assert(str_views(v@)[i as int] == v@[i as int]@);
    v[i]
}

/// What is inside it.
pub open spec fn contents() -> Seq<Seq<char>> {
    seq![
        "baked beans"@,
        "barbecue sauce"@,
        "tomato ketchup"@,
        "footy scran"@,
        "happy thoughts"@,
        "mayonnaise"@,
    ]
}

fn contents_list() -> (v: Vec<&'static str>)
    ensures
        str_views(v@) == contents(),
        v@.len() == 6,
{
    let v = vec![
        "baked beans",
        "barbecue sauce",
        "tomato ketchup",
        "footy scran",
        "happy thoughts",
        "mayonnaise",
    ];
    assert(str_views(v@) =~= contents());
    v
}

/// A random entry of `contents`.
pub fn pick_contents() -> (r: &'static str)
    ensures
        contents().contains(r@),
{
    let v = contents_list();
    let i = random_index(v.len());
    assert(str_views(v@)[i as int] == v@[i as int]@);
    v[i]
}

/// What a trick falls out of.
pub open spec fn heights() -> Seq<Seq<char>> {
    seq![
        "International Space Station"@,
        "Eiffel Tower"@,
        "Burj Khalifa"@,
        "Museum From **Planet 51: The Game**"@,
    ]
}

fn heights_list() -> (v: Vec<&'static str>)
    ensures
        str_views(v@) == heights(),
        v@.len() == 4,
{
    let v = vec![
        "International Space Station",
        "Eiffel Tower",
        "Burj Khalifa",
        "Museum From **Planet 51: The Game**",
    ];
    assert(str_views(v@) =~= heights());
    v
}

/// A random entry of `heights`.
pub fn pick_heights() -> (r: &'static str)
    ensures
        heights().contains(r@),
{
    let v = heights_list();
    let i = random_index(v.len());
    assert(str_views(v@)[i as int] == v@[i as int]@);
    v[i]
}

/// With or without a parachute.
pub open spec fn parachutes() -> Seq<Seq<char>> {
    seq![
        ""@,
        "out"@,
    ]
}

fn parachutes_list() -> (v: Vec<&'static str>)
    ensures
        str_views(v@) == parachutes(),
        v@.len() == 2,
{
    let v = vec![
        "",
        "out",
    ];
    assert(str_views(v@) =~= parachutes());
    v
}

/// A random entry of `parachutes`.
pub fn pick_parachutes() -> (r: &'static str)
    ensures
        parachutes().contains(r@),
{
    let v = parachutes_list();
    let i = random_index(v.len());
    assert(str_views(v@)[i as int] == v@[i as int]@);
    v[i]
}

/// What the crowd throws.
pub open spec fn thrown_items() -> Seq<Seq<char>> {
    seq![
        "Christian baby"@,
        "rotten tomato"@,
        "Oscar Trophy"@,
        "Nuclear Bomb"@,
        "Gold CowardCoin"@,
    ]
}

fn thrown_items_list() -> (v: Vec<&'static str>)
    ensures
        str_views(v@) == thrown_items(),
        v@.len() == 5,
{
    let v = vec![
        "Christian baby",
        "rotten tomato",
        "Oscar Trophy",
        "Nuclear Bomb",
        "Gold CowardCoin",
    ];
    assert(str_views(v@) =~= thrown_items());
    v
}

/// A random entry of `thrown_items`.
pub fn pick_thrown_items() -> (r: &'static str)
    ensures
        thrown_items().contains(r@),
{
    let v = thrown_items_list();
    let i = random_index(v.len());
    assert(str_views(v@)[i as int] == v@[i as int]@);
    v[i]
}

/// What distracts the member.
pub open spec fn distractions() -> Seq<Seq<char>> {
    seq![
        "women"@,
        "men"@,
        "Planet 51: The Game"@,
        "CowardCoins"@,
        "pigs, hogs and slop"@,
        "Dark Admiral Chex Mix"@,
        "dave strider"@,
        "the meaning of life"@,
        "fruit loops"@,
        "The Notorious B.U.B."@,
        "World of Warcraft"@,
    ]
}

fn distractions_list() -> (v: Vec<&'static str>)
    ensures
        str_views(v@) == distractions(),
        v@.len() == 11,
{
    let v = vec![
        "women",
        "men",
        "Planet 51: The Game",
        "CowardCoins",
        "pigs, hogs and slop",
        "Dark Admiral Chex Mix",
        "dave strider",
        "the meaning of life",
        "fruit loops",
        "The Notorious B.U.B.",
        "World of Warcraft",
    ];
    assert(str_views(v@) =~= distractions());
    v
}

/// A random entry of `distractions`.
pub fn pick_distractions() -> (r: &'static str)
    ensures
        distractions().contains(r@),
{
    let v = distractions_list();
    let i = random_index(v.len());
    assert(str_views(v@)[i as int] == v@[i as int]@);
    v[i]
}

/// What the distracted member runs into.
pub open spec fn hazards() -> Seq<Seq<char>> {
    seq![
        "speeding train"@,
        "rake on the ground"@,
        "oil spill"@,
        "ten-tonne truck"@,
        "woke dog"@,
        "pride parade"@,
        "baked beans on the ground"@,
        "shellfish"@,
        "crab"@,
        "orca"@,
        "goldfish"@,
        "bowl of Chex Mix (sponsored by Chex Quest)"@,
        "fax machine"@,
    ]
}

fn hazards_list() -> (v: Vec<&'static str>)
    ensures
        str_views(v@) == hazards(),
        v@.len() == 13,
{
    let v = vec![
        "speeding train",
        "rake on the ground",
        "oil spill",
        "ten-tonne truck",
        "woke dog",
        "pride parade",
        "baked beans on the ground",
        "shellfish",
        "crab",
        "orca",
        "goldfish",
        "bowl of Chex Mix (sponsored by Chex Quest)",
        "fax machine",
    ];
    assert(str_views(v@) =~= hazards());
    v
}

/// A random entry of `hazards`.
pub fn pick_hazards() -> (r: &'static str)
    ensures
        hazards().contains(r@),
{
    let v = hazards_list();
    let i = random_index(v.len());
    assert(str_views(v@)[i as int] == v@[i as int]@);
    v[i]
}

/// Plain ways for a trick to fail.
pub open spec fn fail_plain() -> Seq<Seq<char>> {
    seq![
        "unfortunately die in the attempt..."@,
        "embarrass yourself horrifically. You'll never be able to recover from this."@,
        "land head-first on the ground..."@,
        "land on the back of a horse! The horse bucks you off, and you land in a crumpled heap on the ground."@,
    ]
}

fn fail_plain_list() -> (v: Vec<&'static str>)
    ensures
        str_views(v@) == fail_plain(),
        v@.len() == 4,
{
    let v = vec![
        "unfortunately die in the attempt...",
        "embarrass yourself horrifically. You'll never be able to recover from this.",
        "land head-first on the ground...",
        "land on the back of a horse! The horse bucks you off, and you land in a crumpled heap on the ground.",
    ];
    assert(str_views(v@) =~= fail_plain());
    v
}

/// How running into a hazard ends when the trick fails.
pub open spec fn fail_hazard_ends() -> Seq<Seq<char>> {
    seq![
        "You are crushed instantly."@,
        "It slams into your face, and your nose hurts."@,
        "Oh no! Your wallet's been stolen!"@,
        "You die instantly."@,
    ]
}

fn fail_hazard_ends_list() -> (v: Vec<&'static str>)
    ensures
        str_views(v@) == fail_hazard_ends(),
        v@.len() == 4,
{
    let v = vec![
        "You are crushed instantly.",
        "It slams into your face, and your nose hurts.",
        "Oh no! Your wallet's been stolen!",
        "You die instantly.",
    ];
    assert(str_views(v@) =~= fail_hazard_ends());
    v
}

/// A random entry of `fail_hazard_ends`.
pub fn pick_fail_hazard_ends() -> (r: &'static str)
    ensures
        fail_hazard_ends().contains(r@),
{
    let v = fail_hazard_ends_list();
    let i = random_index(v.len());
    assert(str_views(v@)[i as int] == v@[i as int]@);
    v[i]
}

/// The bones a failed trick breaks.
pub open spec fn bones() -> Seq<Seq<char>> {
    seq![
        "arm"@,
        "leg"@,
        "head"@,
        "chest"@,
        "knee"@,
        "elbow"@,
        "groin"@,
        "foot"@,
        "feet"@,
        "hand"@,
        "hands"@,
    ]
}

fn bones_list() -> (v: Vec<&'static str>)
    ensures
        str_views(v@) == bones(),
        v@.len() == 11,
{
    let v = vec![
        "arm",
        "leg",
        "head",
        "chest",
        "knee",
        "elbow",
        "groin",
        "foot",
        "feet",
        "hand",
        "hands",
    ];
    assert(str_views(v@) =~= bones());
    v
}

/// A random entry of `bones`.
pub fn pick_bones() -> (r: &'static str)
    ensures
        bones().contains(r@),
{
    let v = bones_list();
    let i = random_index(v.len());
    assert(str_views(v@)[i as int] == v@[i as int]@);
    v[i]
}

/// How many flips a brilliant trick has.
pub open spec fn flips() -> Seq<Seq<char>> {
    seq![
        "double"@,
        "triple"@,
        "quadruple"@,
        "quintuple"@,
        "sextuple"@,
    ]
}

fn flips_list() -> (v: Vec<&'static str>)
    ensures
        str_views(v@) == flips(),
        v@.len() == 5,
{
    let v = vec![
        "double",
        "triple",
        "quadruple",
        "quintuple",
        "sextuple",
    ];
    assert(str_views(v@) =~= flips());
    v
}

/// A random entry of `flips`.
pub fn pick_flips() -> (r: &'static str)
    ensures
        flips().contains(r@),
{
    let v = flips_list();
    let i = random_index(v.len());
    assert(str_views(v@)[i as int] == v@[i as int]@);
    v[i]
}

/// Plain ways for a trick to go brilliantly.
pub open spec fn crit_plain() -> Seq<Seq<char>> {
    seq![
        "land gracefully on one leg!"@,
        "almost fall, but recover stylishly in a way that makes it look planned!"@,
        "miraculously survive without a scratch!"@,
        "land on the back of a horse! The horse looks at you, and winks."@,
    ]
}

fn crit_plain_list() -> (v: Vec<&'static str>)
    ensures
        str_views(v@) == crit_plain(),
        v@.len() == 4,
{
    let v = vec![
        "land gracefully on one leg!",
        "almost fall, but recover stylishly in a way that makes it look planned!",
        "miraculously survive without a scratch!",
        "land on the back of a horse! The horse looks at you, and winks.",
    ];
    assert(str_views(v@) =~= crit_plain());
    v
}

/// Plain ways for a trick to go so-so.
pub open spec fn meh_plain() -> Seq<Seq<char>> {
    seq![
        "it's pretty mediocre..."@,
        "awkwardly stumble as you land."@,
        "land on the back of a horse! The horse stares at you in disappointment."@,
        "fall to your knees, shedding a single tear at what could have been."@,
        "sigh, thinking about the good times that you'll never be able to return to."@,
    ]
}

fn meh_plain_list() -> (v: Vec<&'static str>)
    ensures
        str_views(v@) == meh_plain(),
        v@.len() == 5,
{
    let v = vec![
        "it's pretty mediocre...",
        "awkwardly stumble as you land.",
        "land on the back of a horse! The horse stares at you in disappointment.",
        "fall to your knees, shedding a single tear at what could have been.",
        "sigh, thinking about the good times that you'll never be able to return to.",
    ];
    assert(str_views(v@) =~= meh_plain());
    v
}

/// How running into a hazard ends when the trick is so-so.
pub open spec fn meh_hazard_ends() -> Seq<Seq<char>> {
    seq![
        "You stub your toe!"@,
        "You dodge out of the way just in time, narrowly avoiding a grisly fate."@,
        "You barely escape with your life!"@,
        "You survive by the skin of your teeth."@,
    ]
}

fn meh_hazard_ends_list() -> (v: Vec<&'static str>)
    ensures
        str_views(v@) == meh_hazard_ends(),
        v@.len() == 4,
{
    let v = vec![
        "You stub your toe!",
        "You dodge out of the way just in time, narrowly avoiding a grisly fate.",
        "You barely escape with your life!",
        "You survive by the skin of your teeth.",
    ];
    assert(str_views(v@) =~= meh_hazard_ends());
    v
}

/// A random entry of `meh_hazard_ends`.
pub fn pick_meh_hazard_ends() -> (r: &'static str)
    ensures
        meh_hazard_ends().contains(r@),
{
    let v = meh_hazard_ends_list();
    let i = random_index(v.len());
    assert(str_views(v@)[i as int] == v@[i as int]@);
    v[i]
}

/// How the crowd takes a brilliant trick.
pub open spec fn crit_crowds() -> Seq<Seq<char>> {
    seq![
        "The crowd jump out of their seats. Every single one of them does a backflip."@,
        "The crowd levitate off the ground ominously. Their eyes glow white."@,
        "The crowd storms the field, and murders the pitcher."@,
        "The crowd pelts you with perfectly ripe tomatoes, and you eat every single one of them."@,
    ]
}

fn crit_crowds_list() -> (v: Vec<&'static str>)
    ensures
        str_views(v@) == crit_crowds(),
        v@.len() == 4,
{
    let v = vec![
        "The crowd jump out of their seats. Every single one of them does a backflip.",
        "The crowd levitate off the ground ominously. Their eyes glow white.",
        "The crowd storms the field, and murders the pitcher.",
        "The crowd pelts you with perfectly ripe tomatoes, and you eat every single one of them.",
    ];
    assert(str_views(v@) =~= crit_crowds());
    v
}

/// What the member does with a thrown item after a brilliant trick.
pub open spec fn crit_catches() -> Seq<Seq<char>> {
    seq![
        "You hit it out of the park, and score a home run!"@,
        "You catch it, and become a national hero!"@,
        "You catch it in your mouth, and swallow it whole!"@,
        "You catch it, and dedicate the rest of your life to caring for it!"@,
    ]
}

fn crit_catches_list() -> (v: Vec<&'static str>)
    ensures
        str_views(v@) == crit_catches(),
        v@.len() == 4,
{
    let v = vec![
        "You hit it out of the park, and score a home run!",
        "You catch it, and become a national hero!",
        "You catch it in your mouth, and swallow it whole!",
        "You catch it, and dedicate the rest of your life to caring for it!",
    ];
    assert(str_views(v@) =~= crit_catches());
    v
}

/// A random entry of `crit_catches`.
pub fn pick_crit_catches() -> (r: &'static str)
    ensures
        crit_catches().contains(r@),
{
    let v = crit_catches_list();
    let i = random_index(v.len());
    assert(str_views(v@)[i as int] == v@[i as int]@);
    v[i]
}

/// How the crowd takes a so-so trick.
pub open spec fn meh_crowds() -> Seq<Seq<char>> {
    seq![
        "The crowd goes 'huh?'."@,
        "The crowd doesn't notice."@,
        "The crowd cheers, but you can tell that their heart isn't really in it."@,
        "One member of the crowd throws a raw egg at you. He swears it should have been hard-boiled."@,
    ]
}

fn meh_crowds_list() -> (v: Vec<&'static str>)
    ensures
        str_views(v@) == meh_crowds(),
        v@.len() == 4,
{
    let v = vec![
        "The crowd goes 'huh?'.",
        "The crowd doesn't notice.",
        "The crowd cheers, but you can tell that their heart isn't really in it.",
        "One member of the crowd throws a raw egg at you. He swears it should have been hard-boiled.",
    ];
    assert(str_views(v@) =~= meh_crowds());
    v
}

/// What happens to a thrown item after a so-so trick.
pub open spec fn meh_misses() -> Seq<Seq<char>> {
    seq![
        "It flies past you, into the stands."@,
        "It flies past you, into the street."@,
        "It flies past you, landing in the grass."@,
        "You try to catch it, and miss."@,
    ]
}

fn meh_misses_list() -> (v: Vec<&'static str>)
    ensures
        str_views(v@) == meh_misses(),
        v@.len() == 4,
{
    let v = vec![
        "It flies past you, into the stands.",
        "It flies past you, into the street.",
        "It flies past you, landing in the grass.",
        "You try to catch it, and miss.",
    ];
    assert(str_views(v@) =~= meh_misses());
    v
}

/// A random entry of `meh_misses`.
pub fn pick_meh_misses() -> (r: &'static str)
    ensures
        meh_misses().contains(r@),
{
    let v = meh_misses_list();
    let i = random_index(v.len());
    assert(str_views(v@)[i as int] == v@[i as int]@);
    v[i]
}

/// Who watches a so-so trick in disappointment.
pub open spec fn onlookers() -> Seq<Seq<char>> {
    seq![
        "your parents"@,
        "your entire extended family"@,
        "all of Radio TV Solutions"@,
        "dave strider"@,
        "the Jolly Green Giant"@,
        "the Gerber Daby"@,
        "The Game Chimp"@,
        "PSP"@,
        "UMD"@,
        "Dr. Harold Pontiff Coomer"@,
        "Tommy Coolatta"@,
    ]
}

fn onlookers_list() -> (v: Vec<&'static str>)
    ensures
        str_views(v@) == onlookers(),
        v@.len() == 11,
{
    let v = vec![
        "your parents",
        "your entire extended family",
        "all of Radio TV Solutions",
        "dave strider",
        "the Jolly Green Giant",
        "the Gerber Daby",
        "The Game Chimp",
        "PSP",
        "UMD",
        "Dr. Harold Pontiff Coomer",
        "Tommy Coolatta",
    ];
    assert(str_views(v@) =~= onlookers());
    v
}

/// A random entry of `onlookers`.
pub fn pick_onlookers() -> (r: &'static str)
    ensures
        onlookers().contains(r@),
{
    let v = onlookers_list();
    let i = random_index(v.len());
    assert(str_views(v@)[i as int] == v@[i as int]@);
    v[i]
}

/// How the crowd takes a failed trick.
pub open spec fn fail_crowds() -> Seq<Seq<char>> {
    seq![
        "The crowd goes wild with dismay, then commits mass suicide."@,
        "The crowd sighs in relief. They'll be able to get a refund, at least."@,
    ]
}

fn fail_crowds_list() -> (v: Vec<&'static str>)
    ensures
        str_views(v@) == fail_crowds(),
        v@.len() == 2,
{
    let v = vec![
        "The crowd goes wild with dismay, then commits mass suicide.",
        "The crowd sighs in relief. They'll be able to get a refund, at least.",
    ];
    assert(str_views(v@) =~= fail_crowds());
    v
}

/// Where a thrown item hits after a failed trick.
pub open spec fn fail_hits() -> Seq<Seq<char>> {
    seq![
        "It explodes as it hits your head."@,
        "It splatters on the ground."@,
        "It bounces off your head."@,
        "It hits you in your stomach, winding you."@,
        "It hits you in the back of the knee, forcing you to the ground."@,
    ]
}

fn fail_hits_list() -> (v: Vec<&'static str>)
    ensures
        str_views(v@) == fail_hits(),
        v@.len() == 5,
{
    let v = vec![
        "It explodes as it hits your head.",
        "It splatters on the ground.",
        "It bounces off your head.",
        "It hits you in your stomach, winding you.",
        "It hits you in the back of the knee, forcing you to the ground.",
    ];
    assert(str_views(v@) =~= fail_hits());
    v
}

/// A random entry of `fail_hits`.
pub fn pick_fail_hits() -> (r: &'static str)
    ensures
        fail_hits().contains(r@),
{
    let v = fail_hits_list();
    let i = random_index(v.len());
    assert(str_views(v@)[i as int] == v@[i as int]@);
    v[i]
}

/// Where arena training money goes.
pub open spec fn training_places() -> Seq<Seq<char>> {
    seq![
        "the altar of progress"@,
        "the shrine of Capitalism"@,
        "the Gym Gods"@,
        "the Minotaur"@,
        "the Coins themselves"@,
    ]
}

fn training_places_list() -> (v: Vec<&'static str>)
    ensures
        str_views(v@) == training_places(),
        v@.len() == 5,
{
    let v = vec![
        "the altar of progress",
        "the shrine of Capitalism",
        "the Gym Gods",
        "the Minotaur",
        "the Coins themselves",
    ];
    assert(str_views(v@) =~= training_places());
    v
}

/// A random entry of `training_places`.
pub fn pick_training_places() -> (r: &'static str)
    ensures
        training_places().contains(r@),
{
    let v = training_places_list();
    let i = random_index(v.len());
    assert(str_views(v@)[i as int] == v@[i as int]@);
    v[i]
}

/// How distraction by a hazard reads.
pub open spec fn hazard_view(d: Seq<char>, h: Seq<char>, e: Seq<char>) -> Seq<char> {
    "are too distracted thinking about "@ + d + " to see the "@ + h + " right in front of you! "@ + e
}

/// The ways a trick can start.
pub open spec fn is_opening(t: Seq<char>) -> bool {
    ||| t == "launch yourself into the air gracefully"@
    ||| exists|a: Seq<char>, b: Seq<char>, c: Seq<char>|
        #![trigger kickflips().contains(a), launch_pads().contains(b), pad_parts().contains(c)]
        kickflips().contains(a) && launch_pads().contains(b) && pad_parts().contains(c)
            && t == "do a"@ + a + " off a "@ + b + c
    ||| exists|d: Seq<char>, e: Seq<char>|
        #![trigger containers().contains(d), contents().contains(e)]
        containers().contains(d) && contents().contains(e) && t == "open a "@ + d + " of "@ + e
    ||| t == "explode messily all over the place"@
    ||| exists|f: Seq<char>, g: Seq<char>|
        #![trigger heights().contains(f), parachutes().contains(g)]
        heights().contains(f) && parachutes().contains(g)
            && t == "fall out of the "@ + f + " (with"@ + g + " a parachute)"@
}

/// The ways a trick can turn out, given how it went, what distracted the
/// member and what they could run into.
pub open spec fn is_outcome(state: TrickState, d: Seq<char>, h: Seq<char>, t: Seq<char>) -> bool {
    match state {
        TrickState::ERR => t == "something goes terribly wrong..."@,
        TrickState::FAIL => {
            ||| fail_plain().contains(t)
            ||| exists|e: Seq<char>| #[trigger] fail_hazard_ends().contains(e) && t == hazard_view(d, h, e)
            ||| exists|b: Seq<char>| #[trigger] bones().contains(b) && t == "break all of the bones in your "@ + b + "..."@
        },
        TrickState::CRIT => {
            ||| crit_plain().contains(t)
            ||| exists|f: Seq<char>| #[trigger] flips().contains(f) && t == "do a "@ + f + " flip before you land!"@
            ||| t == "avoid the temptation of "@ + d + ", and take the gold medal at the Olympics!"@
        },
        _ => {
            ||| meh_plain().contains(t)
            ||| exists|e: Seq<char>| #[trigger] meh_hazard_ends().contains(e) && t == hazard_view(d, h, e)
        },
    }
}

/// The ways the crowd can react, given how the trick went and what the
/// crowd had to throw.
pub open spec fn is_crowd(state: TrickState, x: Seq<char>, t: Seq<char>) -> bool {
    match state {
        TrickState::ERR => t == "The crowd glitches. Something has gone terribly wrong."@,
        TrickState::CRIT => {
            ||| crit_crowds().contains(t)
            ||| exists|c: Seq<char>| #[trigger] crit_catches().contains(c)
                && t == "One member of the crowd throws a "@ + x + " at you. "@ + c
        },
        TrickState::FAIL => {
            ||| fail_crowds().contains(t)
            ||| exists|c: Seq<char>| #[trigger] fail_hits().contains(c) && t == "Someone throws a "@ + x + " at you. "@ + c
        },
        _ => {
            ||| meh_crowds().contains(t)
            ||| exists|c: Seq<char>| #[trigger] meh_misses().contains(c)
                && t == "One member of the crowd throws a "@ + x + " at you. "@ + c
            ||| exists|o: Seq<char>| #[trigger] onlookers().contains(o)
                && t == "You can see "@ + o + " in the crowd. They seem disappointed in you."@
        },
    }
}

/// How a trick starts, chosen at random.
pub fn trick_opening() -> (r: String)
    ensures
        is_opening(r@),
{
    let i = random_index(5);
    if i == 0 {
        String::from_str("launch yourself into the air gracefully")
    } else if i == 1 {
        let a = pick_kickflips();
        let b = pick_launch_pads();
        let c = pick_pad_parts();
        let mut r = String::from_str("do a");
        r.append(a);
        r.append(" off a ");
        r.append(b);
        r.append(c);
        r
    } else if i == 2 {
        let d = pick_containers();
        let e = pick_contents();
        let mut r = String::from_str("open a ");
        r.append(d);
        r.append(" of ");
        r.append(e);
        r
    } else if i == 3 {
        String::from_str("explode messily all over the place")
    } else {
        let f = pick_heights();
        let g = pick_parachutes();
        let mut r = String::from_str("fall out of the ");
        r.append(f);
        r.append(" (with");
        r.append(g);
        r.append(" a parachute)");
        r
    }
}

fn hazard_text(d: &str, h: &str, e: &str) -> (r: String)
    ensures
        r@ == hazard_view(d@, h@, e@),
{
    let mut r = String::from_str("are too distracted thinking about ");
    r.append(d);
    r.append(" to see the ");
    r.append(h);
    r.append(" right in front of you! ");
    r.append(e);
    r
}

/// How a trick turns out, chosen at random among the ways that fit how it
/// went.
pub fn trick_outcome(state: TrickState, d: &str, h: &str) -> (r: String)
    ensures
        is_outcome(state, d@, h@, r@),
{
    match state {
        TrickState::ERR => String::from_str("something goes terribly wrong..."),
        TrickState::FAIL => {
            let i = random_index(6);
            if i < 4 {
                let v = fail_plain_list();
                assert(str_views(v@)[i as int] == v@[i as int]@);
                String::from_str(v[i])
            } else if i == 4 {
                hazard_text(d, h, pick_fail_hazard_ends())
            } else {
                let b = pick_bones();
                let mut r = String::from_str("break all of the bones in your ");
                r.append(b);
                r.append("...");
                r
            }
        },
        TrickState::CRIT => {
            let i = random_index(6);
            if i == 1 {
                let f = pick_flips();
                let mut r = String::from_str("do a ");
                r.append(f);
                r.append(" flip before you land!");
                r
            } else if i == 5 {
                let mut r = String::from_str("avoid the temptation of ");
                r.append(d);
                r.append(", and take the gold medal at the Olympics!");
                r
            } else {
                let v = crit_plain_list();
                let k: usize = if i == 0 { 0 } else { i - 1 };
                assert(str_views(v@)[k as int] == v@[k as int]@);
                String::from_str(v[k])
            }
        },
        _ => {
            let i = random_index(6);
            if i < 5 {
                let v = meh_plain_list();
                assert(str_views(v@)[i as int] == v@[i as int]@);
                String::from_str(v[i])
            } else {
                hazard_text(d, h, pick_meh_hazard_ends())
            }
        },
    }
}

/// How the crowd reacts, chosen at random among the reactions that fit how
/// the trick went.
pub fn trick_crowd(state: TrickState, x: &str) -> (r: String)
    ensures
        is_crowd(state, x@, r@),
{
    match state {
        TrickState::ERR => String::from_str("The crowd glitches. Something has gone terribly wrong."),
        TrickState::CRIT => {
            let i = random_index(5);
            if i < 4 {
                let v = crit_crowds_list();
                assert(str_views(v@)[i as int] == v@[i as int]@);
                String::from_str(v[i])
            } else {
                let c = pick_crit_catches();
                let mut r = String::from_str("One member of the crowd throws a ");
                r.append(x);
                r.append(" at you. ");
                r.append(c);
                r
            }
        },
        TrickState::FAIL => {
            let i = random_index(3);
            if i < 2 {
                let v = fail_crowds_list();
                assert(str_views(v@)[i as int] == v@[i as int]@);
                String::from_str(v[i])
            } else {
                let c = pick_fail_hits();
                let mut r = String::from_str("Someone throws a ");
                r.append(x);
                r.append(" at you. ");
                r.append(c);
                r
            }
        },
        _ => {
            let i = random_index(6);
            if i < 4 {
                let v = meh_crowds_list();
                assert(str_views(v@)[i as int] == v@[i as int]@);
                String::from_str(v[i])
            } else if i == 4 {
                let c = pick_meh_misses();
                let mut r = String::from_str("One member of the crowd throws a ");
                r.append(x);
                r.append(" at you. ");
                r.append(c);
                r
            } else {
                let o = pick_onlookers();
                let mut r = String::from_str("You can see ");
                r.append(o);
                r.append(" in the crowd. They seem disappointed in you.");
                r
            }
        },
    }
}

} // verus!
