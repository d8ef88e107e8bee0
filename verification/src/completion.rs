//! Shell completion: which shells are supported and how their names are read.
use vstd::prelude::*;
use clap_complete::Shell;
use crate::text::{all_ascii, ascii_lowercase, str_equal, to_lowercase, unicode_lowercase};

verus! {

#[verifier::external_type_specification]
#[verifier::external_body]
pub struct ExShell(Shell);

/// The clap_complete shell whose name is `name`.
pub uninterp spec fn shell_named(name: Seq<char>) -> Shell;

/// The names under which clap_complete knows its shells.
pub open spec fn is_clap_shell_name(name: Seq<char>) -> bool {
    name == "bash"@ || name == "elvish"@ || name == "fish"@ || name == "powershell"@ || name
        == "zsh"@
}

/// `<Shell as FromStr>::from_str` from clap_complete, which looks the name up,
/// case-sensitively, among the shells' names (bash, elvish, fish, powershell,
/// zsh; none of them has an alias). The shell found is named [`shell_named`]
/// of the name.
#[verifier::external_body]
fn shell_from_name(name: &str) -> (shell: Option<Shell>)
    ensures
        shell is Some <==> is_clap_shell_name(name@),
        shell matches Some(s) ==> s == shell_named(name@),
{
    name.parse::<Shell>().ok()
}

/// The canonical shell name that a lowercase name or alias stands for.
pub open spec fn canonical_shell_name(lower: Seq<char>) -> Option<Seq<char>> {
    if lower == "bash"@ {
        Some("bash"@)
    } else if lower == "zsh"@ {
        Some("zsh"@)
    } else if lower == "fish"@ {
        Some("fish"@)
    } else if lower == "powershell"@ || lower == "pwsh"@ {
        Some("powershell"@)
    } else {
        None
    }
}

/// The shells for which completion scripts are offered, by name.
pub open spec fn supported_shell_names() -> Seq<Seq<char>> {
    seq!["bash"@, "zsh"@, "fish"@, "powershell"@]
}

/// The shell that an already lowercase name stands for; `pwsh` is accepted
/// for PowerShell.
pub fn shell_for_lowercase_name(lower: &str) -> (shell: Option<Shell>)
    ensures
        shell == (match canonical_shell_name(lower@) {
            Some(canonical) => Some(shell_named(canonical)),
            None => None,
        }),
{
    let canonical = if str_equal(lower, "bash") {
        "bash"
    } else if str_equal(lower, "zsh") {
        "zsh"
    } else if str_equal(lower, "fish") {
        "fish"
    } else if str_equal(lower, "powershell") || str_equal(lower, "pwsh") {
        "powershell"
    } else {
        return None;
    };
    shell_from_name(canonical)
}

/// Reads a shell name, ignoring case; `pwsh` is accepted for PowerShell.
pub fn parse_shell_name(shell_name: &str) -> (shell: Option<Shell>)
    ensures
        shell == (match canonical_shell_name(unicode_lowercase(shell_name@)) {
            Some(canonical) => Some(shell_named(canonical)),
            None => None,
        }),
        all_ascii(shell_name@) ==> shell == (match canonical_shell_name(ascii_lowercase(shell_name@)) {
            Some(canonical) => Some(shell_named(canonical)),
            None => None,
        }),
{
    let lower = to_lowercase(shell_name);
    shell_for_lowercase_name(lower.as_str())
}

/// The names of the supported shells.
pub fn get_supported_shells() -> (names: Vec<&'static str>)
    ensures
        names@.len() == 4,
        forall|i: int| 0 <= i < 4 ==> #[trigger] names@[i]@ == supported_shell_names()[i],
{
    let names = vec!["bash", "zsh", "fish", "powershell"];
    assert(names@[0]@ == supported_shell_names()[0]);
    names
}

/// Every supported shell name is lowercase ASCII text that reads back as a
/// shell, so the names offered are exactly the names accepted.
pub proof fn law_supported_shells_parse(i: int)
    requires
        0 <= i < 4,
    ensures
        all_ascii(supported_shell_names()[i]),
        ascii_lowercase(supported_shell_names()[i]) == supported_shell_names()[i],
        canonical_shell_name(supported_shell_names()[i]) == Some(supported_shell_names()[i]),
        is_clap_shell_name(supported_shell_names()[i]),
{
    reveal_strlit("bash");
    reveal_strlit("zsh");
    reveal_strlit("fish");
    reveal_strlit("powershell");
    let n = supported_shell_names()[i];
    assert(ascii_lowercase(n) =~= n);
    assert("bash"@.len() != "zsh"@.len());
    assert("bash"@[0] != "fish"@[0]);
    assert("zsh"@.len() != "fish"@.len());
    assert("bash"@.len() != "powershell"@.len());
    assert("zsh"@.len() != "powershell"@.len());
    assert("fish"@.len() != "powershell"@.len());
}

/// A supported shell name written in any mix of ASCII upper and lower case
/// names that shell: parsing ignores case.
pub proof fn law_shell_parse_ignores_ascii_case(i: int, s: Seq<char>)
    requires
        0 <= i < 4,
        all_ascii(s),
        ascii_lowercase(s) == supported_shell_names()[i],
    ensures
        canonical_shell_name(ascii_lowercase(s)) == Some(supported_shell_names()[i]),
{
    law_supported_shells_parse(i);
}

} // verus!
