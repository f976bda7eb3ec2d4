//! The closed catalogue of filter kinds and their stable string names.

use vstd::prelude::*;

verus! {

/// One member of the closed set of supported visual effect kinds.
///
/// Each variant has a stable lowercase wire/display name, given by
/// [`get_filter_name`]; the mapping from variant to name is total and
/// injective (see [`lemma_filter_name_injective`]).
#[derive(Clone, Copy, PartialEq, Eq, Structural, Debug)]
pub enum FilterType {
    Oceanic,
    Islands,
    Marine,
    SeaGreen,
    FlagBlue,
    Liquid,
    Diamante,
    Radio,
    Twenties,
    RoseTint,
    Mauve,
    BlueChrome,
    Vintage,
    Perfume,
    Serenity,
}

/// The stable external name of a filter kind, as a sequence of characters.
pub open spec fn spec_filter_name(filter: FilterType) -> Seq<char> {
    match filter {
        FilterType::Oceanic => "oceanic"@,
        FilterType::Islands => "islands"@,
        FilterType::Marine => "marine"@,
        FilterType::SeaGreen => "seagreen"@,
        FilterType::FlagBlue => "flagblue"@,
        FilterType::Liquid => "liquid"@,
        FilterType::Diamante => "diamante"@,
        FilterType::Radio => "radio"@,
        FilterType::Twenties => "twenties"@,
        FilterType::RoseTint => "rosetint"@,
        FilterType::Mauve => "mauve"@,
        FilterType::BlueChrome => "bluechrome"@,
        FilterType::Vintage => "vintage"@,
        FilterType::Perfume => "perfume"@,
        FilterType::Serenity => "serenity"@,
    }
}

/// Returns the stringified name of the given filter.
pub fn get_filter_name(filter: FilterType) -> (name: String)
    ensures
        name@ == spec_filter_name(filter),
{
    let s: &str = match filter {
        FilterType::Oceanic => "oceanic",
        FilterType::Islands => "islands",
        FilterType::Marine => "marine",
        FilterType::SeaGreen => "seagreen",
        FilterType::FlagBlue => "flagblue",
        FilterType::Liquid => "liquid",
        FilterType::Diamante => "diamante",
        FilterType::Radio => "radio",
        FilterType::Twenties => "twenties",
        FilterType::RoseTint => "rosetint",
        FilterType::Mauve => "mauve",
        FilterType::BlueChrome => "bluechrome",
        FilterType::Vintage => "vintage",
        FilterType::Perfume => "perfume",
        FilterType::Serenity => "serenity",
    };
    s.to_string()
}

/// The mapping from filter kind to name is injective: distinct kinds never
/// share a name, so the name is a faithful external identifier.
#[verifier::rlimit(100)]
pub proof fn lemma_filter_name_injective(a: FilterType, b: FilterType)
    ensures
        spec_filter_name(a) == spec_filter_name(b) ==> a == b,
{
    reveal_strlit("oceanic");
    reveal_strlit("islands");
    reveal_strlit("marine");
    reveal_strlit("seagreen");
    reveal_strlit("flagblue");
    reveal_strlit("liquid");
    reveal_strlit("diamante");
    reveal_strlit("radio");
    reveal_strlit("twenties");
    reveal_strlit("rosetint");
    reveal_strlit("mauve");
    reveal_strlit("bluechrome");
    reveal_strlit("vintage");
    reveal_strlit("perfume");
    reveal_strlit("serenity");
    assert(("oceanic"@).len() == 7 && ("oceanic"@)[0] == 'o');
    assert(("islands"@).len() == 7 && ("islands"@)[0] == 'i');
    assert(("marine"@).len() == 6 && ("marine"@)[0] == 'm');
    assert(("seagreen"@).len() == 8 && ("seagreen"@)[0] == 's' && ("seagreen"@)[2] == 'a');
    assert(("flagblue"@).len() == 8 && ("flagblue"@)[0] == 'f');
    assert(("liquid"@).len() == 6 && ("liquid"@)[0] == 'l');
    assert(("diamante"@).len() == 8 && ("diamante"@)[0] == 'd');
    assert(("radio"@).len() == 5 && ("radio"@)[0] == 'r');
    assert(("twenties"@).len() == 8 && ("twenties"@)[0] == 't');
    assert(("rosetint"@).len() == 8 && ("rosetint"@)[0] == 'r');
    assert(("mauve"@).len() == 5 && ("mauve"@)[0] == 'm');
    assert(("bluechrome"@).len() == 10 && ("bluechrome"@)[0] == 'b');
    assert(("vintage"@).len() == 7 && ("vintage"@)[0] == 'v');
    assert(("perfume"@).len() == 7 && ("perfume"@)[0] == 'p');
    assert(("serenity"@).len() == 8 && ("serenity"@)[0] == 's' && ("serenity"@)[2] == 'r');
    match a {
        FilterType::Oceanic => assert(spec_filter_name(a) == spec_filter_name(b) ==> a == b),
        FilterType::Islands => assert(spec_filter_name(a) == spec_filter_name(b) ==> a == b),
        FilterType::Marine => assert(spec_filter_name(a) == spec_filter_name(b) ==> a == b),
        FilterType::SeaGreen => assert(spec_filter_name(a) == spec_filter_name(b) ==> a == b),
        FilterType::FlagBlue => assert(spec_filter_name(a) == spec_filter_name(b) ==> a == b),
        FilterType::Liquid => assert(spec_filter_name(a) == spec_filter_name(b) ==> a == b),
        FilterType::Diamante => assert(spec_filter_name(a) == spec_filter_name(b) ==> a == b),
        FilterType::Radio => assert(spec_filter_name(a) == spec_filter_name(b) ==> a == b),
        FilterType::Twenties => assert(spec_filter_name(a) == spec_filter_name(b) ==> a == b),
        FilterType::RoseTint => assert(spec_filter_name(a) == spec_filter_name(b) ==> a == b),
        FilterType::Mauve => assert(spec_filter_name(a) == spec_filter_name(b) ==> a == b),
        FilterType::BlueChrome => assert(spec_filter_name(a) == spec_filter_name(b) ==> a == b),
        FilterType::Vintage => assert(spec_filter_name(a) == spec_filter_name(b) ==> a == b),
        FilterType::Perfume => assert(spec_filter_name(a) == spec_filter_name(b) ==> a == b),
        FilterType::Serenity => assert(spec_filter_name(a) == spec_filter_name(b) ==> a == b),
    }
}

} // verus!
