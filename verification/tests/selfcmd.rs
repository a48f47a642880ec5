use gigabytectl::cli;
use gigabytectl::config;
use gigabytectl::config::Environment;
use gigabytectl::path;
use gigabytectl::selfcmd;
use gigabytectl::selfcmd::{Asset, Install, Installed, Offer, Release, Removal, Uninstall};

fn asset(name: &str) -> Asset {
    Asset {
        name: name.to_string(),
        browser_download_url: format!("https://example/{name}"),
    }
}

#[test]
fn versions_compare_by_component_not_by_string() {
    assert!(selfcmd::is_newer("0.10.0", "0.9.0"), "10 > 9 numerically");
    assert!(selfcmd::is_newer("v1.0.0", "0.5.0"));
    assert!(selfcmd::is_newer("0.5.1", "0.5.0"));
    assert!(!selfcmd::is_newer("0.5.0", "0.5.0"));
    assert!(!selfcmd::is_newer("0.4.9", "0.5.0"));
    // A tag we cannot read must never look like an update.
    assert!(!selfcmd::is_newer("nightly", "0.5.0"));
    assert!(!selfcmd::is_newer("", "0.5.0"));
}

#[test]
fn version_parsing_tolerates_tags_and_suffixes() {
    assert_eq!(selfcmd::parse_version("v0.5.0"), Some((0, 5, 0)));
    assert_eq!(selfcmd::parse_version(" 1.2.3 "), Some((1, 2, 3)));
    assert_eq!(selfcmd::parse_version("1.2"), Some((1, 2, 0)));
    assert_eq!(selfcmd::parse_version("2"), Some((2, 0, 0)));
    assert_eq!(selfcmd::parse_version("1.2.3-rc1"), Some((1, 2, 3)));
    assert_eq!(selfcmd::parse_version("1.2.x"), None);
    assert_eq!(selfcmd::parse_version("v"), None);
}

#[test]
fn the_asset_for_this_machine_is_the_matching_linux_tarball() {
    let assets = [
        asset("gigabytectl-v0.6.0-aarch64-unknown-linux-gnu.tar.gz"),
        asset("gigabytectl-v0.6.0-x86_64-unknown-linux-gnu.tar.gz"),
        asset("gigabytectl-v0.6.0-x86_64-unknown-linux-gnu.tar.gz.sha256"),
    ];
    assert_eq!(
        selfcmd::pick_asset(&assets, "x86_64").map(|a| a.name.as_str()),
        Some("gigabytectl-v0.6.0-x86_64-unknown-linux-gnu.tar.gz")
    );
    assert_eq!(
        selfcmd::pick_asset(&assets, "aarch64").map(|a| a.name.as_str()),
        Some("gigabytectl-v0.6.0-aarch64-unknown-linux-gnu.tar.gz")
    );
    assert!(selfcmd::pick_asset(&assets, "riscv64").is_none());
    assert!(selfcmd::pick_asset(&[], "x86_64").is_none());
}

#[test]
fn only_directories_of_our_name_may_be_removed() {
    assert!(selfcmd::remove_data_dir("/home/ann/.config/gigabytectl").is_ok());
    assert!(selfcmd::remove_data_dir("/home/ann/.config/gigabytectl/").is_ok());
    assert_eq!(
        selfcmd::remove_data_dir("/tmp/gigabytectl-uninstall-test").unwrap_err(),
        "Warning: refusing to remove /tmp/gigabytectl-uninstall-test (not a gigabytectl directory)"
    );
    assert!(selfcmd::remove_data_dir("/home/ann/gigabytectl/..").is_err());
    assert!(selfcmd::remove_data_dir("/").is_err());
}

#[test]
fn an_update_is_offered_only_when_it_is_newer() {
    let release = Release {
        tag_name: "v0.7.0".to_string(),
        assets: vec![asset("notes.txt"), asset("g-x86_64-linux.tar.gz")],
    };
    let found = selfcmd::update("0.6.0", &release, false, "x86_64");
    assert_eq!(
        found.lines,
        ["Latest:    0.7.0 (tag v0.7.0)", "", "Update available: 0.6.0 -> 0.7.0"]
    );
    assert_eq!(found.version, "0.7.0");
    assert_eq!(found.outcome.unwrap(), Offer::Take(1));
    assert_eq!(
        selfcmd::update("0.6.0", &release, true, "x86_64").outcome.unwrap(),
        Offer::Done
    );
    let same = selfcmd::update("0.7.0", &release, false, "x86_64");
    assert_eq!(same.lines[2], "Already up to date.");
    assert_eq!(same.outcome.unwrap(), Offer::Done);
    assert_eq!(
        selfcmd::update("0.6.0", &release, false, "mips").outcome.unwrap_err().message(),
        "release v0.7.0 has no mips Linux tarball (assets: notes.txt, g-x86_64-linux.tar.gz)"
    );
    assert_eq!(selfcmd::asset_names(&[]), "none");
    assert_eq!(
        selfcmd::installed_line("0.6.0", "/usr/bin/g"),
        "Installed: 0.6.0 (/usr/bin/g)"
    );
}

#[test]
fn an_install_respects_packages_and_dry_runs() {
    let a = asset("t.tar.gz");
    match selfcmd::plan_install(&a, "/usr/bin/g", None, true).unwrap() {
        Install::DryRun(lines) => assert_eq!(
            lines,
            [
                "Download:  https://example/t.tar.gz",
                "Install:   /usr/bin/g",
                "",
                "Dry run: nothing was downloaded or installed.",
            ]
        ),
        other => panic!("{other:?}"),
    }
    assert!(matches!(
        selfcmd::plan_install(&a, "/usr/bin/g", None, false).unwrap(),
        Install::Go(lines) if lines.len() == 2
    ));
    assert_eq!(
        selfcmd::plan_install(&a, "/usr/bin/g", Some("pkg"), false).unwrap_err().message(),
        "/usr/bin/g is owned by the package 'pkg'; update it with your package manager instead"
    );
    assert_eq!(
        selfcmd::ensure_writable("/usr/bin", Some("denied")).unwrap_err().message(),
        "cannot write to /usr/bin (denied); re-run with sudo (try: sudo gigabytectl self update)"
    );
    assert!(selfcmd::ensure_writable("/usr/bin", None).is_ok());
}

#[test]
fn a_download_is_checked_before_it_is_trusted() {
    assert_eq!(
        selfcmd::require_binary(&asset("t.tar.gz"), false).unwrap_err().message(),
        "t.tar.gz did not contain a `gigabytectl` binary"
    );
    assert!(selfcmd::require_binary(&asset("t.tar.gz"), true).is_ok());
    assert!(selfcmd::check_download(Some("gigabytectl 0.7.0"), "0.7.0").is_ok());
    assert_eq!(
        selfcmd::check_download(Some("gigabytectl 0.6.0"), "0.7.0").unwrap_err().message(),
        "the downloaded binary reports \"gigabytectl 0.6.0\", not version 0.7.0"
    );
    assert_eq!(
        selfcmd::check_download(None, "0.7.0").unwrap_err().message(),
        "the downloaded binary did not run (wrong architecture, or a corrupt download)"
    );
    assert_eq!(
        selfcmd::download_args("/t", "https://u"),
        ["-sSfL", "--max-time", "300", "-o", "/t", "https://u"]
    );
    assert_eq!(selfcmd::unpack_args("/t", "/w"), ["-xzf", "/t", "-C", "/w"]);
    assert_eq!(
        selfcmd::latest_release_args()[5],
        "https://api.github.com/repos/Code-Sapling/gigabytectl/releases/latest"
    );
}

#[test]
fn only_the_service_of_this_binary_is_restarted() {
    let unit = "[Service]\r\n  ExecStart=/usr/local/bin/gigabytectl sync\nRestart=on-failure\n";
    assert!(selfcmd::service_runs(Some(unit), "/usr/local/bin/gigabytectl"));
    assert!(!selfcmd::service_runs(Some(unit), "/usr/bin/gigabytectl"));
    assert!(!selfcmd::service_runs(Some("ExecStart=\n"), ""));
    assert!(!selfcmd::service_runs(None, "/usr/bin/gigabytectl"));
    assert!(selfcmd::service_is_active(Some("active")));
    assert!(!selfcmd::service_is_active(Some("inactive")));
    assert!(!selfcmd::service_is_active(None));
    assert_eq!(
        selfcmd::restarted_line(None),
        "Restarted gigabytectl-ppd-sync.service."
    );
    assert_eq!(
        selfcmd::restarted_line(Some("busy")),
        "Warning: could not restart gigabytectl-ppd-sync.service: busy"
    );
}

fn installed(package: Option<&str>) -> Installed {
    Installed {
        exe: "/usr/bin/g".to_string(),
        package: package.map(str::to_string),
        service: true,
        dirs: vec!["/etc/gigabytectl".to_string()],
        files: vec!["/f".to_string()],
        keep_config: false,
    }
}

#[test]
fn everything_that_goes_is_announced() {
    assert_eq!(
        selfcmd::uninstall_plan(&installed(None)),
        [
            "This will remove gigabytectl from this machine:",
            "  - disable and remove /etc/systemd/system/gigabytectl-ppd-sync.service",
            "  - /etc/gigabytectl",
            "  - /f",
            "  - /usr/bin/g",
        ]
    );
    let kept = Installed {
        dirs: vec![],
        files: vec![],
        service: false,
        keep_config: true,
        ..installed(Some("pkg"))
    };
    assert_eq!(
        selfcmd::uninstall_plan(&kept),
        [
            "This will remove gigabytectl from this machine:",
            "  - keep /usr/bin/g (owned by the package 'pkg' — remove it with your package manager)",
            "  (configuration and profiles are kept: --keep-config)",
        ]
    );
}

#[test]
fn the_binary_is_removed_last() {
    let order = selfcmd::removals(&installed(None));
    assert!(matches!(order[0], Removal::Service));
    assert!(matches!(&order[1], Removal::Dir(d) if d == "/etc/gigabytectl"));
    assert!(matches!(&order[2], Removal::File(f) if f == "/f"));
    assert!(matches!(&order[3], Removal::Program(p) if p == "/usr/bin/g"));
    assert_eq!(order.len(), 4);
    assert_eq!(selfcmd::removals(&installed(Some("pkg"))).len(), 3);
    assert!(selfcmd::cargo_note("/home/ann/.cargo/bin/g").is_some());
    assert!(selfcmd::cargo_note("/usr/bin/g").is_none());
}

#[test]
fn uninstalling_takes_root_and_a_yes() {
    assert_eq!(selfcmd::uninstall(false, true, false).unwrap(), Uninstall::DryRun);
    assert_eq!(
        selfcmd::uninstall(true, false, false).unwrap_err().message(),
        "gigabytectl: uninstalling touches /etc and the installed binary; run as root (try: sudo gigabytectl self uninstall)"
    );
    assert_eq!(selfcmd::uninstall(true, false, true).unwrap(), Uninstall::Remove);
    assert_eq!(selfcmd::uninstall(false, false, true).unwrap(), Uninstall::Ask);
    assert!(selfcmd::confirm(Some(" YES\n")).is_ok());
    assert_eq!(
        selfcmd::confirm(Some("y")).unwrap_err().message(),
        "Aborted; nothing was removed."
    );
    assert_eq!(
        selfcmd::confirm(None).unwrap_err().message(),
        "not running interactively; pass --yes to confirm"
    );
}

#[test]
fn homes_come_from_the_passwd_database() {
    let passwd = "root:x:0:0:root:/root:/bin/bash\n\
                  daemon:x:1:1::/usr/sbin:/sbin/nologin\n\
                  bob:x:1001:1001::/home/bob:/bin/sh\n\
                  ann:x:1000:1000::/home/ann/:/bin/sh\n\
                  twin:x:1002:1002::/home/ann:/bin/sh\n\
                  broken";
    let homes = selfcmd::home_dirs(Some(passwd));
    assert_eq!(homes, ["/home/ann/", "/home/bob", "/root"]);
    assert_eq!(selfcmd::home_dirs(None), ["/root"]);
    assert_eq!(
        selfcmd::data_dirs("/x/gigabytectl", &homes),
        [
            "/etc/gigabytectl",
            "/x/gigabytectl",
            "/home/ann/.config/gigabytectl",
            "/home/bob/.config/gigabytectl",
            "/root/.config/gigabytectl",
        ]
    );
    assert_eq!(
        selfcmd::completion_files(&homes[2..]),
        [
            "/etc/bash_completion.d/gigabytectl",
            "/root/.zsh/completions/_gigabytectl",
            "/root/.config/fish/completions/gigabytectl.fish",
        ]
    );
}

#[test]
fn the_owning_package_is_whoever_claims_it() {
    assert_eq!(
        selfcmd::owning_package(Some("gigabytectl\nother"), None),
        Some("gigabytectl".to_string())
    );
    assert_eq!(selfcmd::owning_package(Some(""), Some("pkg: /usr/bin/g")), None);
    assert_eq!(
        selfcmd::owning_package(None, Some("pkg: /usr/bin/g")),
        Some("pkg".to_string())
    );
    assert_eq!(selfcmd::owning_package(None, None), None);
    assert_eq!(selfcmd::removed_line("/f"), "Removed /f");
    assert_eq!(
        selfcmd::not_removed_line("/f", "busy"),
        "Warning: could not remove /f: busy"
    );
}

#[test]
fn paths_are_ordered_by_their_parts() {
    let mut by_std: Vec<String> = [
        "/home/a-b", "/home/a/b", "/home/a", "/", "rel", "./rel", "../up", "/home/..", "/home/-x", "/home//a/b/",
    ]
    .iter()
    .map(|s| s.to_string())
    .collect();
    let ours = path::sorted_paths(&by_std);
    by_std.sort_by(|a, b| std::path::Path::new(a).cmp(std::path::Path::new(b)));
    by_std.dedup_by(|a, b| std::path::Path::new(a) == std::path::Path::new(b));
    assert_eq!(ours, by_std);
    assert!(path::same_path("/a//b/./c/", "/a/b/c"));
    assert!(!path::same_path("/a/b", "a/b"));
    assert!(path::path_before("/a/z", "/a-b"));
}

#[test]
fn the_installed_unit_is_recognised() {
    let exe = "/usr/local/bin/gigabytectl";
    let unit = cli::service_unit(exe);
    assert!(selfcmd::service_runs(Some(&unit), exe));
    assert!(!selfcmd::service_runs(Some(&unit), "/usr/bin/gigabytectl"));
    // A path with a blank reads as a program and its argument.
    let odd = "/opt/my tools/gigabytectl";
    assert!(!selfcmd::service_runs(Some(&cli::service_unit(odd)), odd));
}

#[test]
fn every_listed_directory_may_be_removed() {
    let env = Environment {
        xdg_config_home: Some("/x/".to_string()),
        xdg_cache_home: None,
        sudo_home: None,
        home: None,
    };
    let homes = selfcmd::home_dirs(Some("ann:x:1:1::/home/ann:/bin/sh"));
    let dirs = selfcmd::data_dirs(&config::config_dir(&env), &homes);
    assert_eq!(dirs.len(), 4);
    assert!(dirs.iter().all(|dir| selfcmd::remove_data_dir(dir).is_ok()));
}

#[test]
fn what_is_found_is_listed_in_order_or_kept() {
    let found = ["/home/b/gigabytectl", "/etc/gigabytectl", "/etc//gigabytectl/"].map(str::to_string);
    let gone = Installed::gather("/g".to_string(), None, false, &found, &[], false);
    assert_eq!(gone.dirs, ["/etc/gigabytectl", "/home/b/gigabytectl"]);
    assert_eq!(selfcmd::removals(&gone).len(), 3);
    let kept = Installed::gather("/g".to_string(), None, true, &found, &found, true);
    assert!(kept.dirs.is_empty() && kept.files.is_empty());
    assert_eq!(selfcmd::removals(&kept).len(), 2);
}
