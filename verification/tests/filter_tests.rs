use canvas_filters::get_filter_name;
use canvas_filters::FilterType;

fn all_filters() -> Vec<FilterType> {
    vec![
        FilterType::Oceanic,
        FilterType::Islands,
        FilterType::Marine,
        FilterType::SeaGreen,
        FilterType::FlagBlue,
        FilterType::Liquid,
        FilterType::Diamante,
        FilterType::Radio,
        FilterType::Twenties,
        FilterType::RoseTint,
        FilterType::Mauve,
        FilterType::BlueChrome,
        FilterType::Vintage,
        FilterType::Perfume,
        FilterType::Serenity,
    ]
}

#[test]
fn filter_names_are_stable() {
    assert_eq!(get_filter_name(FilterType::Oceanic), "oceanic");
    assert_eq!(get_filter_name(FilterType::Islands), "islands");
    assert_eq!(get_filter_name(FilterType::Marine), "marine");
    assert_eq!(get_filter_name(FilterType::SeaGreen), "seagreen");
    assert_eq!(get_filter_name(FilterType::FlagBlue), "flagblue");
    assert_eq!(get_filter_name(FilterType::Liquid), "liquid");
    assert_eq!(get_filter_name(FilterType::Diamante), "diamante");
    assert_eq!(get_filter_name(FilterType::Radio), "radio");
    assert_eq!(get_filter_name(FilterType::Twenties), "twenties");
    assert_eq!(get_filter_name(FilterType::RoseTint), "rosetint");
    assert_eq!(get_filter_name(FilterType::Mauve), "mauve");
    assert_eq!(get_filter_name(FilterType::BlueChrome), "bluechrome");
    assert_eq!(get_filter_name(FilterType::Vintage), "vintage");
    assert_eq!(get_filter_name(FilterType::Perfume), "perfume");
    assert_eq!(get_filter_name(FilterType::Serenity), "serenity");
}

#[test]
fn filter_names_are_injective() {
    let names: Vec<String> = all_filters().into_iter().map(get_filter_name).collect();
    for i in 0..names.len() {
        for j in 0..names.len() {
            if i != j {
                assert_ne!(names[i], names[j]);
            }
        }
    }
}
