use clap_complete::Shell;
use community_simulation::completion::{
    get_supported_shells, parse_shell_name, shell_for_lowercase_name,
};

#[test]
fn test_parse_shell_name_bash() {
    assert_eq!(parse_shell_name("bash"), Some(Shell::Bash));
    assert_eq!(parse_shell_name("BASH"), Some(Shell::Bash));
    assert_eq!(parse_shell_name("Bash"), Some(Shell::Bash));
}

#[test]
fn test_parse_shell_name_zsh() {
    assert_eq!(parse_shell_name("zsh"), Some(Shell::Zsh));
    assert_eq!(parse_shell_name("ZSH"), Some(Shell::Zsh));
}

#[test]
fn test_parse_shell_name_fish() {
    assert_eq!(parse_shell_name("fish"), Some(Shell::Fish));
    assert_eq!(parse_shell_name("FISH"), Some(Shell::Fish));
}

#[test]
fn test_parse_shell_name_powershell() {
    assert_eq!(parse_shell_name("powershell"), Some(Shell::PowerShell));
    assert_eq!(parse_shell_name("POWERSHELL"), Some(Shell::PowerShell));
    assert_eq!(parse_shell_name("pwsh"), Some(Shell::PowerShell));
    assert_eq!(parse_shell_name("PWSH"), Some(Shell::PowerShell));
}

#[test]
fn test_parse_shell_name_unknown() {
    assert_eq!(parse_shell_name("unknown"), None);
    assert_eq!(parse_shell_name("cmd"), None);
    assert_eq!(parse_shell_name(""), None);
}

#[test]
fn test_get_supported_shells() {
    let shells = get_supported_shells();
    assert_eq!(shells.len(), 4);
    assert!(shells.contains(&"bash"));
    assert!(shells.contains(&"zsh"));
    assert!(shells.contains(&"fish"));
    assert!(shells.contains(&"powershell"));
}

#[test]
fn every_supported_shell_parses() {
    for name in get_supported_shells() {
        assert!(parse_shell_name(name).is_some(), "{} should parse", name);
    }
    assert_eq!(parse_shell_name("elvish"), None);
}

#[test]
fn lowercase_names_map_to_shells() {
    assert_eq!(shell_for_lowercase_name("bash"), Some(Shell::Bash));
    assert_eq!(shell_for_lowercase_name("zsh"), Some(Shell::Zsh));
    assert_eq!(shell_for_lowercase_name("fish"), Some(Shell::Fish));
    assert_eq!(shell_for_lowercase_name("powershell"), Some(Shell::PowerShell));
    assert_eq!(shell_for_lowercase_name("pwsh"), Some(Shell::PowerShell));
    // case is already folded by the caller
    assert_eq!(shell_for_lowercase_name("BASH"), None);
    assert_eq!(shell_for_lowercase_name("elvish"), None);
}

#[test]
fn non_ascii_names_are_folded_before_lookup() {
    // the Kelvin sign lowercases to an ASCII 'k', which names no shell
    assert_eq!(parse_shell_name("\u{212A}sh"), None);
    // fullwidth letters stay fullwidth when lowercased
    assert_eq!(parse_shell_name("\u{FF22}\u{FF21}\u{FF33}\u{FF28}"), None);
}

#[test]
fn every_supported_shell_parses_in_any_ascii_case() {
    for name in get_supported_shells() {
        assert_eq!(parse_shell_name(&name.to_uppercase()), parse_shell_name(name));
        assert!(parse_shell_name(&name.to_uppercase()).is_some());
    }
}
