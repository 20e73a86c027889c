use openapi_model_generator::text::{same_text, to_pascal_case};

#[test]
fn pascal_case_of_names() {
    assert_eq!(to_pascal_case("createRole"), "CreateRole");
    assert_eq!(to_pascal_case("listRoles"), "ListRoles");
    assert_eq!(to_pascal_case("listRoles-Input"), "ListRolesInput");
    assert_eq!(to_pascal_case("user_profile-image"), "UserProfileImage");
}

#[test]
fn pascal_case_of_odd_names() {
    assert_eq!(to_pascal_case(""), "");
    assert_eq!(to_pascal_case("-_-"), "");
    assert_eq!(to_pascal_case("_a__b-"), "AB");
    assert_eq!(to_pascal_case("2nd-item"), "2ndItem");
    assert_eq!(to_pascal_case("élan_vital"), "élanVital");
    assert_eq!(to_pascal_case("two words"), "Two words");
}

#[test]
fn pascal_case_twice_is_pascal_case_once() {
    for name in ["createRole", "a-b_c", "ALREADY_UP", "x", "-", "3d-model"] {
        let once = to_pascal_case(name);
        assert_eq!(to_pascal_case(&once), once);
        assert!(!once.contains('-') && !once.contains('_'));
    }
}

#[test]
fn texts_are_the_same_character_by_character() {
    assert!(same_text("", ""));
    assert!(same_text("null", "null"));
    assert!(!same_text("null", "nul"));
    assert!(!same_text("nul", "null"));
    assert!(!same_text("Null", "null"));
}
