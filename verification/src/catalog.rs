//! The built-in catalog of package managers, and what makes a table of
//! managers well formed.

use vstd::prelude::*;
use crate::detect::{candidate, PROBE_ORDER};
use crate::security::{is_allowed, ALLOWED_MANAGERS};
use crate::updater::{ManagerView, PackageManager};

verus! {

/// The views of a sequence of managers.
pub open spec fn manager_views(managers: Seq<PackageManager>) -> Seq<ManagerView> {
    Seq::new(managers.len(), |i: int| managers[i]@)
}

/// No two managers of the table share a name.
pub open spec fn names_unique(managers: Seq<ManagerView>) -> bool {
    forall|i: int, j: int|
        0 <= i < managers.len() && 0 <= j < managers.len() && i != j ==> (#[trigger] managers[i]).name
            != (#[trigger] managers[j]).name
}

/// Both commands of the manager can be started: neither the check command,
/// which never runs elevated, nor an update command that runs without
/// elevation is empty.
pub open spec fn launchable(manager: ManagerView) -> bool {
    manager.check_cmd.len() > 0 && (manager.needs_sudo || manager.update_cmd.len() > 0)
}

/// The table holds a manager of this name.
pub open spec fn registered(managers: Seq<ManagerView>, name: Seq<char>) -> bool {
    exists|i: int| 0 <= i < managers.len() && (#[trigger] managers[i]).name == name
}

/// The manager of this name, where the table holds one.
pub open spec fn manager_named(managers: Seq<ManagerView>, name: Seq<char>) -> ManagerView {
    managers[choose|i: int| 0 <= i < managers.len() && (#[trigger] managers[i]).name == name]
}

/// The native package tool of Arch-based systems.
pub open spec fn paru_entry() -> ManagerView {
    ManagerView {
        description: "System packages"@,
        check_cmd: seq!["paru"@, "-Qu"@],
        update_cmd: seq!["paru"@, "-Syu"@, "--noconfirm"@],
        needs_sudo: true,
        name: "paru"@,
    }
}

/// The native package tool of Debian-based systems.
pub open spec fn apt_entry() -> ManagerView {
    ManagerView {
        description: "System packages"@,
        check_cmd: seq!["apt"@, "list"@, "--upgradable"@],
        update_cmd: seq!["sh"@, "-c"@, "apt update && apt upgrade -y"@],
        needs_sudo: true,
        name: "apt"@,
    }
}

/// The native package tool of Fedora-based systems.
pub open spec fn dnf_entry() -> ManagerView {
    ManagerView {
        description: "System packages"@,
        check_cmd: seq!["dnf"@, "check-update"@],
        update_cmd: seq!["dnf"@, "upgrade"@, "-y"@],
        needs_sudo: true,
        name: "dnf"@,
    }
}

/// The native package tool of SUSE-based systems.
pub open spec fn zypper_entry() -> ManagerView {
    ManagerView {
        description: "System packages"@,
        check_cmd: seq!["zypper"@, "list-updates"@],
        update_cmd: seq!["zypper"@, "update"@, "-y"@],
        needs_sudo: true,
        name: "zypper"@,
    }
}

/// The native package tool of Alpine.
pub open spec fn apk_entry() -> ManagerView {
    ManagerView {
        description: "System packages"@,
        check_cmd: seq!["apk"@, "list"@, "--upgradable"@],
        update_cmd: seq!["sh"@, "-c"@, "apk update && apk upgrade"@],
        needs_sudo: true,
        name: "apk"@,
    }
}

/// Sandboxed desktop applications.
pub open spec fn flatpak_entry() -> ManagerView {
    ManagerView {
        description: "Flatpak applications"@,
        check_cmd: seq!["flatpak"@, "remote-ls"@, "--updates"@],
        update_cmd: seq!["flatpak"@, "update"@, "-y"@],
        needs_sudo: false,
        name: "flatpak"@,
    }
}

/// Snap packages.
pub open spec fn snap_entry() -> ManagerView {
    ManagerView {
        description: "Snap packages"@,
        check_cmd: seq!["snap"@, "refresh"@, "--list"@],
        update_cmd: seq!["snap"@, "refresh"@],
        needs_sudo: true,
        name: "snap"@,
    }
}

/// Python applications installed for the user.
pub open spec fn pipx_entry() -> ManagerView {
    ManagerView {
        description: "Python packages"@,
        check_cmd: seq!["pipx"@, "list"@, "--outdated"@],
        update_cmd: seq![
            "sh"@,
            "-c"@,
            "if command -v pipx >/dev/null 2>&1; then pipx upgrade-all; else pipx list --outdated --format=freeze | cut -d= -f1 | xargs -r pipx install --user --upgrade; fi"@,
        ],
        needs_sudo: false,
        name: "pipx"@,
    }
}

/// Globally installed Node.js packages.
pub open spec fn npm_entry() -> ManagerView {
    ManagerView {
        description: "Node.js packages"@,
        check_cmd: seq!["npm"@, "outdated"@, "-g"@],
        update_cmd: seq![
            "sh"@,
            "-c"@,
            "if [ -w \"$(npm config get prefix)\" ]; then npm update -g; else echo 'Note: npm global updates need write permissions. Consider using a Node version manager like nvm.'; fi"@,
        ],
        needs_sudo: false,
        name: "npm"@,
    }
}

/// The Rust toolchain.
pub open spec fn rustup_entry() -> ManagerView {
    ManagerView {
        description: "Rust toolchain"@,
        check_cmd: seq!["rustup"@, "check"@],
        update_cmd: seq!["rustup"@, "update"@],
        needs_sudo: false,
        name: "rustup"@,
    }
}

/// Homebrew packages.
pub open spec fn brew_entry() -> ManagerView {
    ManagerView {
        description: "Homebrew packages"@,
        check_cmd: seq!["brew"@, "outdated"@],
        update_cmd: seq!["sh"@, "-c"@, "brew update && brew upgrade"@],
        needs_sudo: false,
        name: "brew"@,
    }
}

/// The built-in catalog: the system managers first, then the universal ones,
/// then the developer tools.
pub open spec fn catalog() -> Seq<ManagerView> {
    seq![
        paru_entry(),
        apt_entry(),
        dnf_entry(),
        zypper_entry(),
        apk_entry(),
        flatpak_entry(),
        snap_entry(),
        pipx_entry(),
        npm_entry(),
        rustup_entry(),
        brew_entry(),
    ]
}

proof fn reveal_catalog_names()
    ensures
        "paru"@.len() == 4,
        "apt"@.len() == 3 && "apt"@[1] == 'p',
        "dnf"@.len() == 3 && "dnf"@[1] == 'n',
        "zypper"@.len() == 6,
        "apk"@.len() == 3 && "apk"@[1] == 'p' && "apk"@[2] == 'k' && "apt"@[2] == 't',
        "flatpak"@.len() == 7,
        "snap"@.len() == 4 && "snap"@[0] == 's' && "paru"@[0] == 'p' && "pipx"@[0] == 'p'
            && "paru"@[1] == 'a' && "pipx"@[1] == 'i' && "brew"@[0] == 'b',
        "pipx"@.len() == 4,
        "npm"@.len() == 3 && "npm"@[1] == 'p' && "npm"@[0] == 'n' && "apt"@[0] == 'a' && "apk"@[0]
            == 'a',
        "rustup"@.len() == 6 && "rustup"@[0] == 'r' && "zypper"@[0] == 'z',
        "brew"@.len() == 4,
{
    reveal_strlit("paru");
    reveal_strlit("apt");
    reveal_strlit("dnf");
    reveal_strlit("zypper");
    reveal_strlit("apk");
    reveal_strlit("flatpak");
    reveal_strlit("snap");
    reveal_strlit("pipx");
    reveal_strlit("npm");
    reveal_strlit("rustup");
    reveal_strlit("brew");
}

/// The catalog is a well-formed table: its names are distinct and every
/// entry can be started.
pub proof fn catalog_is_well_formed()
    ensures
        names_unique(catalog()),
        forall|i: int| 0 <= i < catalog().len() ==> launchable(#[trigger] catalog()[i]),
{
    reveal_catalog_names();
}

/// Every manager of the catalog is on the allow-list.
pub proof fn catalog_is_allowed()
    ensures
        forall|i: int| 0 <= i < catalog().len() ==> is_allowed((#[trigger] catalog()[i]).name),
{
    assert forall|i: int| 0 <= i < catalog().len() implies is_allowed(
        (#[trigger] catalog()[i]).name,
    ) by {
        assert(ALLOWED_MANAGERS@[i]@ == catalog()[i].name);
    }
}

/// The managers are probed in the order of the catalog.
pub proof fn probe_order_follows_catalog()
    ensures
        PROBE_ORDER@.len() == catalog().len(),
        forall|i: int| 0 <= i < catalog().len() ==> candidate(i) == (#[trigger] catalog()[i]).name,
{
    assert forall|i: int| 0 <= i < catalog().len() implies candidate(i) == (
    #[trigger] catalog()[i]).name by {
        assert(PROBE_ORDER@[i]@ == catalog()[i].name);
    }
}

/// The catalog as owned descriptors.
pub fn builtin_managers() -> (managers: Vec<PackageManager>)
    ensures
        manager_views(managers@) == catalog(),
{
    let mut managers: Vec<PackageManager> = Vec::new();
    let check = ["paru", "-Qu"];
    let update = ["paru", "-Syu", "--noconfirm"];
    let entry = PackageManager::new("paru", &check, &update, true, "System packages");
    assert(entry@.check_cmd =~= paru_entry().check_cmd);
    assert(entry@.update_cmd =~= paru_entry().update_cmd);
    managers.push(entry);
    let check = ["apt", "list", "--upgradable"];
    let update = ["sh", "-c", "apt update && apt upgrade -y"];
    let entry = PackageManager::new("apt", &check, &update, true, "System packages");
    assert(entry@.check_cmd =~= apt_entry().check_cmd);
    assert(entry@.update_cmd =~= apt_entry().update_cmd);
    managers.push(entry);
    let check = ["dnf", "check-update"];
    let update = ["dnf", "upgrade", "-y"];
    let entry = PackageManager::new("dnf", &check, &update, true, "System packages");
    assert(entry@.check_cmd =~= dnf_entry().check_cmd);
    assert(entry@.update_cmd =~= dnf_entry().update_cmd);
    managers.push(entry);
    let check = ["zypper", "list-updates"];
    let update = ["zypper", "update", "-y"];
    let entry = PackageManager::new("zypper", &check, &update, true, "System packages");
    assert(entry@.check_cmd =~= zypper_entry().check_cmd);
    assert(entry@.update_cmd =~= zypper_entry().update_cmd);
    managers.push(entry);
    let check = ["apk", "list", "--upgradable"];
    let update = ["sh", "-c", "apk update && apk upgrade"];
    let entry = PackageManager::new("apk", &check, &update, true, "System packages");
    assert(entry@.check_cmd =~= apk_entry().check_cmd);
    assert(entry@.update_cmd =~= apk_entry().update_cmd);
    managers.push(entry);
    let check = ["flatpak", "remote-ls", "--updates"];
    let update = ["flatpak", "update", "-y"];
    let entry = PackageManager::new("flatpak", &check, &update, false, "Flatpak applications");
    assert(entry@.check_cmd =~= flatpak_entry().check_cmd);
    assert(entry@.update_cmd =~= flatpak_entry().update_cmd);
    managers.push(entry);
    let check = ["snap", "refresh", "--list"];
    let update = ["snap", "refresh"];
    let entry = PackageManager::new("snap", &check, &update, true, "Snap packages");
    assert(entry@.check_cmd =~= snap_entry().check_cmd);
    assert(entry@.update_cmd =~= snap_entry().update_cmd);
    managers.push(entry);
    let check = ["pipx", "list", "--outdated"];
    let update = [
        "sh",
        "-c",
        "if command -v pipx >/dev/null 2>&1; then pipx upgrade-all; else pipx list --outdated --format=freeze | cut -d= -f1 | xargs -r pipx install --user --upgrade; fi",
    ];
    let entry = PackageManager::new("pipx", &check, &update, false, "Python packages");
    assert(entry@.check_cmd =~= pipx_entry().check_cmd);
    assert(entry@.update_cmd =~= pipx_entry().update_cmd);
    managers.push(entry);
    let check = ["npm", "outdated", "-g"];
    let update = [
        "sh",
        "-c",
        "if [ -w \"$(npm config get prefix)\" ]; then npm update -g; else echo 'Note: npm global updates need write permissions. Consider using a Node version manager like nvm.'; fi",
    ];
    let entry = PackageManager::new("npm", &check, &update, false, "Node.js packages");
    assert(entry@.check_cmd =~= npm_entry().check_cmd);
    assert(entry@.update_cmd =~= npm_entry().update_cmd);
    managers.push(entry);
    let check = ["rustup", "check"];
    let update = ["rustup", "update"];
    let entry = PackageManager::new("rustup", &check, &update, false, "Rust toolchain");
    assert(entry@.check_cmd =~= rustup_entry().check_cmd);
    assert(entry@.update_cmd =~= rustup_entry().update_cmd);
    managers.push(entry);
    let check = ["brew", "outdated"];
    let update = ["sh", "-c", "brew update && brew upgrade"];
    let entry = PackageManager::new("brew", &check, &update, false, "Homebrew packages");
    assert(entry@.check_cmd =~= brew_entry().check_cmd);
    assert(entry@.update_cmd =~= brew_entry().update_cmd);
    managers.push(entry);
    assert(manager_views(managers@) =~= catalog());
    managers
}

} // verus!
