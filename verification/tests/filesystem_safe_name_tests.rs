use slotgate::execution::filesystem_safe_name::FilesystemSafeName;

#[test]
fn sanitize_leaves_alphanumeric_and_underscore_names_unchanged() {
    let sanitized = FilesystemSafeName::sanitize("already_safe_name_123");
    assert_eq!(sanitized, "already_safe_name_123");
}

#[test]
fn sanitize_preserves_readability_of_the_original_segments() {
    let sanitized = FilesystemSafeName::sanitize("cluster::byzantine_tests::foo");
    assert!(sanitized.contains("cluster"));
    assert!(sanitized.contains("byzantine_tests"));
    assert!(sanitized.contains("foo"));
}

#[test]
fn sanitize_replaces_double_colons_from_rust_test_paths() {
    let name = "cluster::byzantine_tests::byzantine_new_view_from_non_proposer_is_rejected";
    let sanitized = FilesystemSafeName::sanitize(name);
    assert!(!sanitized.contains(':'));
}

#[test]
fn sanitize_replaces_every_windows_illegal_character() {
    let name = "a<b>c:d\"e/f\\g|h?i*j";
    let sanitized = FilesystemSafeName::sanitize(name);
    for illegal in ['<', '>', ':', '"', '/', '\\', '|', '?', '*'] {
        assert!(
            !sanitized.contains(illegal),
            "sanitized name still contains illegal character '{illegal}': {sanitized}"
        );
    }
}

#[test]
fn sanitize_maps_each_illegal_character_to_one_underscore() {
    assert_eq!(
        FilesystemSafeName::sanitize("a<b>c:d\"e/f\\g|h?i*j"),
        "a_b_c_d_e_f_g_h_i_j"
    );
    assert_eq!(
        FilesystemSafeName::sanitize("cluster::some_tests::a_case"),
        "cluster__some_tests__a_case"
    );
}

#[test]
fn sanitize_keeps_non_ascii_characters() {
    assert_eq!(FilesystemSafeName::sanitize("prüfung:ß"), "prüfung_ß");
    assert_eq!(FilesystemSafeName::sanitize(""), "");
}
