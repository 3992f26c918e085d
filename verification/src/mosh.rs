//! Static knowledge about installing the optional low-latency transport:
//! the help text shown to the user and the install command of each known
//! package manager. Detecting a package manager and running an installer
//! are the caller's job.

use vstd::prelude::*;

use crate::text::str_eq;

verus! {

/// Install instructions for common package managers, shown in the help
/// pane.
pub fn get_install_instructions() -> (r: String)
    ensures
        r@ == instructions_text_spec(),
{
    instructions_text().to_owned()
}

/// The literal instruction text.
pub fn instructions_text() -> (r: &'static str)
    ensures
        r@ == instructions_text_spec(),
{
    "Install mosh on your system:\n\n  No sudo required:\n    Homebrew:  brew install mosh\n    Conda:     conda install -c conda-forge mosh\n    Nix:       nix-env -iA nixpkgs.mosh\n\n  With sudo:\n    Ubuntu:    sudo apt install mosh\n    Fedora:    sudo dnf install mosh\n    Arch:      sudo pacman -S mosh\n    Alpine:    sudo apk add mosh\n\nOn remote servers, install mosh-server using the same commands.\nEnsure UDP ports 60000-61000 are open for mosh connections."
}

/// The instruction text, for contracts.
pub open spec fn instructions_text_spec() -> Seq<char> {
    "Install mosh on your system:\n\n  No sudo required:\n    Homebrew:  brew install mosh\n    Conda:     conda install -c conda-forge mosh\n    Nix:       nix-env -iA nixpkgs.mosh\n\n  With sudo:\n    Ubuntu:    sudo apt install mosh\n    Fedora:    sudo dnf install mosh\n    Arch:      sudo pacman -S mosh\n    Alpine:    sudo apk add mosh\n\nOn remote servers, install mosh-server using the same commands.\nEnsure UDP ports 60000-61000 are open for mosh connections."@
}

/// The local install command a package manager runs, or a placeholder for
/// an unknown one.
pub open spec fn install_command_spec(pm: Seq<char>) -> Seq<char> {
    if pm == "brew"@ {
        "brew install mosh"@
    } else if pm == "conda"@ {
        "conda install -y -c conda-forge mosh"@
    } else if pm == "mamba"@ {
        "mamba install -y -c conda-forge mosh"@
    } else if pm == "nix"@ {
        "nix-env -iA nixpkgs.mosh"@
    } else if pm == "apt"@ {
        "sudo apt install -y mosh"@
    } else if pm == "dnf"@ {
        "sudo dnf install -y mosh"@
    } else if pm == "yum"@ {
        "sudo yum install -y mosh"@
    } else if pm == "pacman"@ {
        "sudo pacman -S --noconfirm mosh"@
    } else if pm == "apk"@ {
        "sudo apk add mosh"@
    } else {
        "echo 'Unknown package manager'"@
    }
}

/// The install command for a package manager: user-space managers need no
/// sudo, system ones do.
pub fn get_install_command(pkg_manager: &str) -> (r: &'static str)
    ensures
        r@ == install_command_spec(pkg_manager@),
{
    if str_eq(pkg_manager, "brew") {
        "brew install mosh"
    } else if str_eq(pkg_manager, "conda") {
        "conda install -y -c conda-forge mosh"
    } else if str_eq(pkg_manager, "mamba") {
        "mamba install -y -c conda-forge mosh"
    } else if str_eq(pkg_manager, "nix") {
        "nix-env -iA nixpkgs.mosh"
    } else if str_eq(pkg_manager, "apt") {
        "sudo apt install -y mosh"
    } else if str_eq(pkg_manager, "dnf") {
        "sudo dnf install -y mosh"
    } else if str_eq(pkg_manager, "yum") {
        "sudo yum install -y mosh"
    } else if str_eq(pkg_manager, "pacman") {
        "sudo pacman -S --noconfirm mosh"
    } else if str_eq(pkg_manager, "apk") {
        "sudo apk add mosh"
    } else {
        "echo 'Unknown package manager'"
    }
}

} // verus!
