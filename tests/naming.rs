use vrpc_reflection::naming::{
    package_to_nanopb_prefix, package_to_namespace, pascal_case_to_lower_snake_case, pascal_case_to_upper_snake_case,
    upper_snake_case_to_pascal_case,
};

#[test]
fn test_upper_snake_case_to_pascal_case() {
    assert_eq!(upper_snake_case_to_pascal_case("FOO"), "Foo");
    assert_eq!(upper_snake_case_to_pascal_case("FOO_BAR"), "FooBar");
    assert_eq!(
        upper_snake_case_to_pascal_case("FOO_BAR_BAZ_QUUX"),
        "FooBarBazQuux"
    );
}

#[test]
fn test_pascal_case_to_upper_snake_case() {
    assert_eq!(pascal_case_to_upper_snake_case("Foo"), "FOO");
    assert_eq!(pascal_case_to_upper_snake_case("FooBar"), "FOO_BAR");
    assert_eq!(
        pascal_case_to_upper_snake_case("FooBarBazQuux"),
        "FOO_BAR_BAZ_QUUX"
    );
}

#[test]
fn test_pascal_case_to_lower_snake_case() {
    assert_eq!(pascal_case_to_lower_snake_case("Foo"), "foo");
    assert_eq!(pascal_case_to_lower_snake_case("FooBar"), "foo_bar");
    assert_eq!(
        pascal_case_to_lower_snake_case("FooBarBazQuux"),
        "foo_bar_baz_quux"
    );
}

#[test]
fn pascal_round_trip_on_upper_snake_names() {
    for s in ["A", "FOO", "FOO_BAR", "FOO_BAR_BAZ_QUUX", "X_Y_Z", "ABC_D"] {
        let pascal = upper_snake_case_to_pascal_case(s);
        assert_eq!(pascal_case_to_upper_snake_case(&pascal), s);
    }
}

#[test]
fn pascal_examples_from_the_description() {
    assert_eq!(upper_snake_case_to_pascal_case("FOO_BAR_BAZ_QUUX"), "FooBarBazQuux");
    assert_eq!(pascal_case_to_lower_snake_case("FooBarBazQuux"), "foo_bar_baz_quux");
}

#[test]
fn conversions_accept_any_string() {
    assert_eq!(upper_snake_case_to_pascal_case(""), "");
    assert_eq!(upper_snake_case_to_pascal_case("_"), "");
    assert_eq!(upper_snake_case_to_pascal_case("FOO__BAR"), "FooBar");
    assert_eq!(upper_snake_case_to_pascal_case("foo_bar"), "FooBar");
    assert_eq!(pascal_case_to_upper_snake_case(""), "");
    assert_eq!(pascal_case_to_lower_snake_case("lower"), "lower");
    assert_eq!(pascal_case_to_upper_snake_case("ABC"), "A_B_C");
    assert_eq!(pascal_case_to_lower_snake_case("_Foo"), "foo");
}

#[test]
fn underscores_go_before_capitals_only() {
    // the capital letters get an underscore in front, nothing else does
    assert_eq!(pascal_case_to_upper_snake_case("Gain2Value"), "GAIN2_VALUE");
    assert_eq!(pascal_case_to_lower_snake_case("HTTPServer"), "h_t_t_p_server");
}

#[test]
fn packages_become_namespaces_and_prefixes() {
    assert_eq!(package_to_namespace("vrpc.motor"), "vrpc::motor");
    assert_eq!(package_to_nanopb_prefix("vrpc.motor"), "vrpc_motor");
    assert_eq!(package_to_namespace(""), "");
    assert_eq!(package_to_namespace("plain"), "plain");
}
