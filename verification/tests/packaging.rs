//! Packaging metadata readers.

use fips::packaging::{
    bash_array, deb_list, find_bash_array, find_deb_list, find_toml_section, toml_section,
    MetadataError,
};
use fips::text::{char_is_whitespace, lines_of};

const UNIT: &str = "[Unit]\nDescription=FIPS firewall\n\n[Service]\nType=oneshot\n\
                    ExecStart=/usr/sbin/nft -f /etc/fips/fips.nft\nRemainAfterExit=yes\n";

const CARGO: &str = "[package]\nname = \"fips\"\ndepends = \"not-this\"\n\n\
                     [package.metadata.deb]\n\
                     depends = \"$auto, systemd, libc6 (>= 2.31)\"\n\
                     recommends = \"bluez, nftables\"\n\
                     assets = [\n    [\"target/release/fips\", \"usr/bin/\", \"755\"],\n]\n\
                     conf-files = [\"/etc/fips/fips.yaml\"]\n\n\
                     [dependencies]\nrecommends = \"nor-this\"\n";

const PKGBUILD: &str = "pkgname=fips\nmakedepends=('cargo' 'clang')\n\
                        depends=('gcc-libs' 'glibc'  # 'commented' )\n  'dbus')\n\
                        optdepends=(\n  'systemd-resolved: DNS for .fips names'\n\
                        \x20 'nftables: the default firewall'\n)\n";

fn strings(items: &[&str]) -> Vec<String> {
    items.iter().map(|item| item.to_string()).collect()
}

#[test]
fn deb_and_aur_packages_declare_nftables_for_the_firewall_units_nft() {
    assert!(
        lines_of(UNIT)
            .iter()
            .any(|l| l.starts_with("ExecStart=") && l.contains("/usr/sbin/nft")),
        "fips-firewall.service no longer starts /usr/sbin/nft; revisit whether the \
         packages still need to declare nftables"
    );

    let mut undeclared = Vec::new();

    let depends = deb_list(CARGO, "depends");
    let recommends = deb_list(CARGO, "recommends");
    assert!(
        recommends.iter().any(|d| d == "bluez") && depends.iter().any(|d| d == "systemd"),
        "control: expected bluez in recommends and systemd in depends, \
         read depends {depends:?}, recommends {recommends:?}"
    );
    if !depends.iter().chain(&recommends).any(|d| d == "nftables") {
        undeclared.push(format!(
            "Cargo.toml [package.metadata.deb]: depends {depends:?}, recommends {recommends:?}"
        ));
    }

    for (rel, text) in [("packaging/aur/PKGBUILD", PKGBUILD), ("packaging/aur/PKGBUILD-git", PKGBUILD)] {
        let depends = bash_array(text, "depends");
        let optdepends: Vec<String> = bash_array(text, "optdepends")
            .iter()
            .map(|item| {
                item.split(':')
                    .next()
                    .unwrap_or_default()
                    .trim()
                    .to_string()
            })
            .collect();
        assert!(
            optdepends.iter().any(|d| d == "systemd-resolved")
                && depends.iter().any(|d| d == "glibc"),
            "{rel} control: expected systemd-resolved in optdepends and glibc in depends, \
             read depends {depends:?}, optdepends {optdepends:?}"
        );
        if !depends.iter().chain(&optdepends).any(|d| d == "nftables") {
            undeclared.push(format!(
                "{rel}: depends {depends:?}, optdepends {optdepends:?}"
            ));
        }
    }

    assert!(
        undeclared.is_empty(),
        "fips-firewall.service runs /usr/sbin/nft, but nftables is declared in neither \
         the required nor the optional dependencies of:\n  {}",
        undeclared.join("\n  ")
    );
}

#[test]
fn sections_end_at_the_next_table() {
    assert_eq!(
        toml_section(CARGO, "[package.metadata.deb]"),
        vec![
            "depends = \"$auto, systemd, libc6 (>= 2.31)\"",
            "recommends = \"bluez, nftables\"",
            "assets = [",
            "    [\"target/release/fips\", \"usr/bin/\", \"755\"],",
            "]",
            "conf-files = [\"/etc/fips/fips.yaml\"]",
            "",
        ]
    );
    assert_eq!(toml_section("[a]", "[a]"), Vec::<&str>::new());
    assert_eq!(find_toml_section(CARGO, "[nowhere]"), None);
    assert_eq!(find_toml_section("", ""), None);
    assert_eq!(find_toml_section("\n", ""), Some(vec![]));
}

#[test]
fn version_constraints_are_dropped() {
    assert_eq!(deb_list(CARGO, "depends"), strings(&["$auto", "systemd", "libc6"]));
    assert_eq!(
        deb_list("[package.metadata.deb]\nx = \"a(>= 1) ,b ( = 2),, c\"", "x"),
        strings(&["a", "b", "", "c"])
    );
    assert_eq!(deb_list("[package.metadata.deb]\nx = \"\"", "x"), strings(&[""]));
}

#[test]
fn debian_lists_that_cannot_be_read_say_why() {
    assert_eq!(find_deb_list("[package]\n", "x"), Err(MetadataError::NoSection));
    assert_eq!(
        find_deb_list("[package.metadata.deb]\n[other]\nx = \"a\"\n", "x"),
        Err(MetadataError::NoKey)
    );
    assert_eq!(
        find_deb_list("[package.metadata.deb]\nx = \"\"\"\na\n", "y"),
        Err(MetadataError::NoKey)
    );
    assert_eq!(
        find_deb_list("[package.metadata.deb]\nx = \"a,\n  b\"\n", "x"),
        Err(MetadataError::NotOneLine)
    );
    assert_eq!(
        find_deb_list("[package.metadata.deb]\nx = \"", "x"),
        Err(MetadataError::NotOneLine)
    );
}

#[test]
fn bash_arrays_may_span_lines_and_hold_comments() {
    assert_eq!(bash_array(PKGBUILD, "depends"), strings(&["gcc-libs", "glibc", "dbus"]));
    assert_eq!(bash_array(PKGBUILD, "makedepends"), strings(&["cargo", "clang"]));
    assert_eq!(
        bash_array(PKGBUILD, "optdepends"),
        strings(&["systemd-resolved: DNS for .fips names", "nftables: the default firewall"])
    );
    assert_eq!(bash_array("a=()", "a"), strings(&[]));
    // Brackets and number signs are plain characters inside quotes, and so is
    // a line break; white space at the end of a line is not kept.
    assert_eq!(bash_array("a=('x) # y  \nz'\n)", "a"), strings(&["x) # y\nz"]));
}

#[test]
fn bash_arrays_that_cannot_be_read_say_why() {
    assert_eq!(find_bash_array(PKGBUILD, "pends"), Err(MetadataError::NoArray));
    assert_eq!(find_bash_array(" a=('x')", "a"), Err(MetadataError::NoArray));
    assert_eq!(find_bash_array("a=('x'\n'y'\n", "a"), Err(MetadataError::NotClosed));
    assert_eq!(find_bash_array("a=('x)", "a"), Err(MetadataError::NotClosed));
    assert_eq!(find_bash_array("a=(# )", "a"), Err(MetadataError::NotClosed));
}

#[test]
fn crlf_reads_as_lf() {
    let cargo = CARGO.replace('\n', "\r\n");
    let pkgbuild = PKGBUILD.replace('\n', "\r\n");
    assert_eq!(
        toml_section(&cargo, "[package.metadata.deb]"),
        toml_section(CARGO, "[package.metadata.deb]")
    );
    assert_eq!(deb_list(&cargo, "depends"), deb_list(CARGO, "depends"));
    assert_eq!(bash_array(&pkgbuild, "optdepends"), bash_array(PKGBUILD, "optdepends"));
}

#[test]
fn lines_are_those_of_the_standard_library() {
    for text in ["", "\n", "a", "a\n", "a\n\nb", "a \t\r\nb\u{3000}\n\u{85}", "é\u{2003}\nß"] {
        let expected: Vec<&str> = text.lines().map(str::trim_end).collect();
        assert_eq!(lines_of(text), expected);
    }
}

#[test]
fn white_space_is_that_of_the_standard_library() {
    for n in 0..0x11_0000u32 {
        if let Some(c) = char::from_u32(n) {
            assert_eq!(char_is_whitespace(c), c.is_whitespace(), "{:x}", n);
        }
    }
}
