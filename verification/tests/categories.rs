use error_toon::ErrorType;

#[test]
fn error_type_names_are_uppercase() {
    for error_type in ErrorType::all() {
        let name = error_type.name();
        assert_eq!(name, name.to_uppercase(), "Error type name should be uppercase: {}", name);
    }
}

#[test]
fn error_types_icons_are_valid() {
    // Some error types have icons, others use a default
    // Just ensure the icon method doesn't panic
    for error_type in ErrorType::all() {
        let _ = error_type.icon();
    }

    // Verify specific types have custom icons
    assert!(!ErrorType::DomNesting.icon().is_empty());
    assert!(!ErrorType::Hydration.icon().is_empty());
    assert!(!ErrorType::Storybook.icon().is_empty());
}
