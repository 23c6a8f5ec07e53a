use rustrace::config::{
    config_file_path, load_config_from, resolve_primary_modifier, ConfigRead, LoadedConfig,
    ModifierPreference, ModifierResolution, PrimaryModifier,
};
use rustrace::ghostty::{
    applies_to_terminal, default_inspection, ghostty_keys_path, keys_file_contents, keys_step,
    parse_list_output, serialized_text_byte, setup_key, startup_key_bindings, GhosttyBindingStatus,
    GhosttyKeyBindings, KeysFile, KeysStep, KEYS_MARKER, KEY_COUNT,
};

fn setup_keys() -> Vec<&'static str> {
    (0..KEY_COUNT).map(setup_key).collect()
}

#[test]
fn empty_and_unparseable_probe_output_use_the_no_inference_model() {
    let expected = default_inspection();

    for output in ["", "Ghostty emitted no key binding report\n"] {
        let inspection = parse_list_output(output);

        assert!(
            !inspection.cli_available,
            "output was treated as usable: {output:?}"
        );
        assert_eq!(inspection.actions, expected.actions, "{output:?}");
        for key in setup_keys() {
            assert_eq!(
                inspection.bindings.status(key),
                expected.bindings.status(key),
                "{output:?}: {key}"
            );
            assert_ne!(
                inspection.bindings.status(key),
                Some(GhosttyBindingStatus::Passed),
                "{output:?}: absent {key} was inferred to pass"
            );
            assert!(
                !inspection.bindings.command_hint_available(key),
                "{output:?}: {key}"
            );
            assert!(
                !inspection.bindings.observed_exact_translation(key),
                "{output:?}: {key}"
            );
        }
    }
}

#[test]
fn a_listing_tells_owned_rewritten_and_passed_keys_apart() {
    let bindings = GhosttyKeyBindings::from_list_output(
        "keybind = super+k=clear_screen\nkeybind = global:super+arrow_left=text:\\\\x01\r\nkeybind = super+f=unbind\n",
    );
    assert_eq!(bindings.status("super+k"), Some(GhosttyBindingStatus::Owned));
    assert_eq!(
        bindings.status("super+arrow_left"),
        Some(GhosttyBindingStatus::Rewritten)
    );
    assert_eq!(bindings.status("super+f"), Some(GhosttyBindingStatus::Passed));
    assert_eq!(bindings.status("super+q"), None);
    assert!(bindings.command_hint_available("super+arrow_left"));
    assert!(bindings.observed_exact_translation("super+arrow_left"));
    assert!(bindings.command_hint_available("super+f"));
    assert!(!bindings.command_hint_available("super+k"));
    assert_eq!(GhosttyBindingStatus::Rewritten.label(), "rewritten");
}

#[test]
fn the_file_that_gives_the_keys_up_lets_every_key_through() {
    let contents = keys_file_contents();
    assert!(contents.starts_with("# Rustrace Ghostty key setup\nkeybind = super+arrow_up=unbind\n"));
    let bindings = GhosttyKeyBindings::from_list_output(&contents);
    assert_eq!(bindings, GhosttyKeyBindings::passed());
    for i in 0..KEY_COUNT {
        assert_eq!(bindings.status(setup_key(i)), Some(GhosttyBindingStatus::Passed));
        assert!(bindings.command_hint_available(setup_key(i)));
    }
    assert!(!bindings.command_hint_available("super+q"));
}

#[test]
fn written_bytes_are_read_in_every_form() {
    for (action, byte) in [
        ("text:\\x01", Some(1)),
        ("text:\\\\X15", Some(0x15)),
        ("text:a", Some(b'a')),
        ("text:\\", Some(b'\\')),
        ("text:\\x+5", Some(5)),
        ("text:x01", None),
        ("text:\\x1", None),
        ("text:\\x0g", None),
        ("text:é", None),
        ("esc:b", None),
    ] {
        assert_eq!(serialized_text_byte(action), byte, "{action}");
    }
}

#[test]
fn only_a_marked_file_or_none_is_written_over() {
    assert_eq!(keys_step("/k", &KeysFile::Missing), KeysStep::Write);
    assert_eq!(
        keys_step("/k", &KeysFile::Text(keys_file_contents())),
        KeysStep::UpToDate
    );
    assert_eq!(
        keys_step("/k", &KeysFile::Text(format!("{KEYS_MARKER}\r\nold\n"))),
        KeysStep::Write
    );
    assert_eq!(
        keys_step("/k", &KeysFile::Text("mine\n".to_owned())),
        KeysStep::Refuse(
            "refusing to overwrite /k; it does not have the Rustrace marker".to_owned()
        )
    );
    assert_eq!(
        keys_step("/k", &KeysFile::Link),
        KeysStep::Refuse("refusing to overwrite /k; it is a symbolic link".to_owned())
    );
}

#[test]
fn keys_matter_on_one_terminal_of_one_system() {
    assert!(applies_to_terminal(true, Some("Ghostty")));
    assert!(!applies_to_terminal(false, Some("ghostty")));
    assert!(!applies_to_terminal(true, Some("ghostty2")));
    assert!(!applies_to_terminal(true, None));
    assert_eq!(startup_key_bindings(false, None), GhosttyKeyBindings::passed());
    assert_eq!(startup_key_bindings(true, None), GhosttyKeyBindings::defaults());
}

#[test]
fn settings_stand_below_the_named_directory_or_the_home() {
    assert_eq!(
        ghostty_keys_path(Some("/x"), Some("/h")).unwrap(),
        "/x/ghostty/rustrace-keys"
    );
    assert_eq!(
        config_file_path(Some(""), Some("/h/")).unwrap(),
        "/h/.config/rustrace/config.toml"
    );
    assert_eq!(config_file_path(None, None), None);
}

#[test]
fn a_modifier_falls_back_to_control() {
    assert_eq!(
        resolve_primary_modifier(ModifierPreference::Auto, true, true).effective,
        PrimaryModifier::Command
    );
    assert_eq!(
        resolve_primary_modifier(ModifierPreference::Auto, false, true),
        ModifierResolution {
            effective: PrimaryModifier::Control,
            warning: None
        }
    );
    assert_eq!(
        resolve_primary_modifier(ModifierPreference::Command, true, false),
        ModifierResolution {
            effective: PrimaryModifier::Control,
            warning: Some(
                "Command modifier unavailable in this terminal; using Control shortcuts".to_owned()
            )
        }
    );
    assert_eq!(ModifierPreference::default(), ModifierPreference::Auto);
}

#[test]
fn unusable_settings_are_replaced_with_a_warning_on_one_line() {
    assert_eq!(
        load_config_from("/c", ConfigRead::Invalid("bad\n  value".to_owned()), "default"),
        LoadedConfig {
            modifier: ModifierPreference::Auto,
            theme: "default",
            path: "/c".to_owned(),
            warning: Some(
                "invalid configuration: bad value in /c; using modifier = \"auto\" and the default theme"
                    .to_owned()
            )
        }
    );
    assert_eq!(
        load_config_from("/c", ConfigRead::Unreadable("denied".to_owned()), "default")
            .warning
            .unwrap(),
        "configuration could not be read: denied in /c; using modifier = \"auto\" and the default theme"
    );
    let missing = load_config_from("/c", ConfigRead::Missing, "default");
    assert_eq!((missing.warning, missing.theme), (None, "default"));
    let read = ConfigRead::Parsed(ModifierPreference::Control, "dark");
    let parsed = load_config_from("/c", read, "default");
    assert_eq!(parsed.modifier, ModifierPreference::Control);
    assert_eq!(parsed.theme, "dark");
}
