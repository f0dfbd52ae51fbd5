use osvwm::system::{ImageCandidate, SystemBackend};

#[test]
fn test_user_initials() {
    // The initials of a user without a full name come from the user name.
    let initials = SystemBackend::user_initials(None, Some("alice"));
    assert!(!initials.is_empty());
}

#[test]
fn initials_of_names() {
    assert_eq!(SystemBackend::user_initials(Some("Ada Lovelace"), Some("ada")), "AL");
    assert_eq!(SystemBackend::user_initials(Some("grace brewster hopper"), None), "GB");
    assert_eq!(SystemBackend::user_initials(None, Some("root")), "R");
    assert_eq!(SystemBackend::user_initials(None, None), "U");
    assert_eq!(SystemBackend::user_initials(Some("   "), Some("x")), "");
}

#[test]
fn user_info_prefers_environment() {
    let passwd = "root:x:0:0:root:/root:/bin/bash\nada:x:1000:1000:Ada Lovelace,,,:/home/ada:/bin/zsh\n";
    let u = SystemBackend::user_info(None, Some("ada"), "nobody", None, 1000, 1000, Some(passwd), None);
    assert_eq!(u.username, "ada");
    assert_eq!(u.full_name, Some("Ada Lovelace".to_string()));
    assert_eq!(u.home_dir, "/");
    assert_eq!(u.shell, "/bin/sh");
    assert_eq!(SystemBackend::get_gecos_name(passwd, "root"), Some("root".to_string()));
    assert_eq!(SystemBackend::get_gecos_name(passwd, "bob"), None);
}

#[test]
fn host_and_os_names() {
    assert_eq!(
        SystemBackend::get_pretty_hostname(Some("PRETTY_HOSTNAME=\"Ada's Laptop\"\n")),
        Some("Ada's Laptop".to_string())
    );
    assert_eq!(SystemBackend::get_pretty_hostname(Some("PRETTY_HOSTNAME=\n")), None);
    let (name, version) = SystemBackend::get_os_info(Some(
        "NAME=\"Arch Linux\"\nPRETTY_NAME=\"Arch Linux\"\nVERSION=\"rolling\"\n",
    ));
    assert_eq!(name, "Arch Linux");
    assert_eq!(version, Some("rolling".to_string()));
    assert_eq!(SystemBackend::get_os_info(None), ("Linux".to_string(), None));
    assert_eq!(SystemBackend::get_kernel_version("6.8.9-arch1-1\n"), "6.8.9-arch1-1");
}

#[test]
fn avatars() {
    assert_eq!(
        SystemBackend::accountsservice_avatar_path(1000),
        "/var/lib/AccountsService/icons/1000"
    );
    let c = vec![
        ImageCandidate { path: "/p/b.PNG".to_string(), extension: Some("PNG".to_string()) },
        ImageCandidate { path: "/p/a.svg".to_string(), extension: Some("svg".to_string()) },
        ImageCandidate { path: "/p/notes.txt".to_string(), extension: Some("txt".to_string()) },
        ImageCandidate { path: "/p/README".to_string(), extension: None },
    ];
    assert_eq!(
        SystemBackend::list_avatar_presets(&c),
        vec!["/p/a.svg".to_string(), "/p/b.PNG".to_string()]
    );
    let cfg = SystemBackend::avatar_config(None, Some("/var/lib/AccountsService/icons/1000"), &c);
    assert_eq!(cfg.path, Some("/var/lib/AccountsService/icons/1000".to_string()));
    assert_eq!(cfg.presets.len(), 2);
}

#[test]
fn system_information_from_files() {
    let info = SystemBackend::system_info(
        Some("\n"),
        Some("box"),
        Some("PRETTY_HOSTNAME=\"My Laptop\"\n"),
        Some("NAME=\"Arch Linux\"\nVERSION_ID=\"rolling\"\n"),
        "6.8.9-arch1-1\n",
        "x86_64",
    );
    assert_eq!(info.hostname, "box");
    assert_eq!(info.kernel_version, "6.8.9-arch1-1");
    assert_eq!(info.architecture, "x86_64");
    let plain = SystemBackend::system_info(Some("laptop\n"), None, None, None, "", "aarch64");
    assert_eq!(plain.hostname, "laptop");
    assert_eq!(plain.os_name, "Linux");
    assert_eq!(plain.pretty_hostname, None);
}
