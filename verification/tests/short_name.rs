use moonshine_util::get_short_name;

#[test]
fn strips_module_prefixes() {
    assert_eq!(get_short_name("bevy_prelude::make_fun_game"), "make_fun_game");
}

#[test]
fn strips_prefixes_inside_generics() {
    assert_eq!(
        get_short_name("alloc::vec::Vec<core::option::Option<u32>>"),
        "Vec<Option<u32>>"
    );
}

#[test]
fn plain_name_is_unchanged() {
    assert_eq!(get_short_name("test_system"), "test_system");
}

#[test]
fn empty_name_stays_empty() {
    assert_eq!(get_short_name(""), "");
}
