use std::path::Path;
use systemd_units::path::extension;
use systemd_units::{UnitError, UnitType};

#[test]
fn classifies_each_recognized_suffix() {
    assert_eq!(UnitType::new("proc-sys-fs-binfmt_misc.automount"), Ok(UnitType::Automount));
    assert_eq!(UnitType::new("org.example.Daemon.busname"), Ok(UnitType::Busname));
    assert_eq!(UnitType::new("home.mount"), Ok(UnitType::Mount));
    assert_eq!(UnitType::new("cups.path"), Ok(UnitType::Path));
    assert_eq!(UnitType::new("session-1.scope"), Ok(UnitType::Scope));
    assert_eq!(UnitType::new("sshd.service"), Ok(UnitType::Service));
    assert_eq!(UnitType::new("user.slice"), Ok(UnitType::Slice));
    assert_eq!(UnitType::new("dbus.socket"), Ok(UnitType::Socket));
    assert_eq!(UnitType::new("dev-sda2.swap"), Ok(UnitType::Swap));
    assert_eq!(UnitType::new("multi-user.target"), Ok(UnitType::Target));
    assert_eq!(UnitType::new("fstrim.timer"), Ok(UnitType::Timer));
}

#[test]
fn classifies_by_suffix_alone() {
    assert_eq!(UnitType::from_suffix("automount"), Some(UnitType::Automount));
    assert_eq!(UnitType::from_suffix("busname"), Some(UnitType::Busname));
    assert_eq!(UnitType::from_suffix("mount"), Some(UnitType::Mount));
    assert_eq!(UnitType::from_suffix("path"), Some(UnitType::Path));
    assert_eq!(UnitType::from_suffix("scope"), Some(UnitType::Scope));
    assert_eq!(UnitType::from_suffix("service"), Some(UnitType::Service));
    assert_eq!(UnitType::from_suffix("slice"), Some(UnitType::Slice));
    assert_eq!(UnitType::from_suffix("socket"), Some(UnitType::Socket));
    assert_eq!(UnitType::from_suffix("swap"), Some(UnitType::Swap));
    assert_eq!(UnitType::from_suffix("target"), Some(UnitType::Target));
    assert_eq!(UnitType::from_suffix("timer"), Some(UnitType::Timer));
    assert_eq!(UnitType::from_suffix(""), None);
    assert_eq!(UnitType::from_suffix("device"), None);
    assert_eq!(UnitType::from_suffix("services"), None);
    assert_eq!(UnitType::from_suffix("servic"), None);
    assert_eq!(UnitType::from_suffix(".service"), None);
}

#[test]
fn classifies_a_unit_file_in_a_directory() {
    assert_eq!(UnitType::new("/usr/lib/systemd/system/sshd.service"), Ok(UnitType::Service));
    assert_eq!(UnitType::new("/etc/systemd/system/getty@tty1.service"), Ok(UnitType::Service));
    assert_eq!(UnitType::new("./local-fs.target"), Ok(UnitType::Target));
    assert_eq!(UnitType::new("system/../system/tmp.mount"), Ok(UnitType::Mount));
}

#[test]
fn only_the_last_dot_counts() {
    assert_eq!(UnitType::new("dbus-org.freedesktop.network1.service"), Ok(UnitType::Service));
    assert_eq!(UnitType::new("a.service.timer"), Ok(UnitType::Timer));
    assert_eq!(UnitType::new("a.timer.bak"), Err(UnitError::UnrecognizedUnitType));
    assert_eq!(UnitType::new("..service"), Ok(UnitType::Service));
}

#[test]
fn rejects_an_unknown_suffix() {
    assert_eq!(UnitType::new("sda.device"), Err(UnitError::UnrecognizedUnitType));
    assert_eq!(UnitType::new("notes.txt"), Err(UnitError::UnrecognizedUnitType));
    assert_eq!(UnitType::new("sshd.services"), Err(UnitError::UnrecognizedUnitType));
    assert_eq!(UnitType::new("sshd.servic"), Err(UnitError::UnrecognizedUnitType));
    assert_eq!(UnitType::new("sshd.service "), Err(UnitError::UnrecognizedUnitType));
    assert_eq!(UnitType::new("sshd.sérvice"), Err(UnitError::UnrecognizedUnitType));
}

#[test]
fn the_suffix_is_matched_with_its_case() {
    assert_eq!(UnitType::new("sshd.Service"), Err(UnitError::UnrecognizedUnitType));
    assert_eq!(UnitType::new("sshd.SERVICE"), Err(UnitError::UnrecognizedUnitType));
    assert_eq!(UnitType::new("SSHD.service"), Ok(UnitType::Service));
}

#[test]
fn rejects_a_path_without_extension() {
    assert_eq!(UnitType::new(""), Err(UnitError::UnrecognizedUnitType));
    assert_eq!(UnitType::new("service"), Err(UnitError::UnrecognizedUnitType));
    assert_eq!(UnitType::new("/usr/lib/systemd/sshd"), Err(UnitError::UnrecognizedUnitType));
    assert_eq!(UnitType::new("sshd."), Err(UnitError::UnrecognizedUnitType));
    assert_eq!(UnitType::new("/"), Err(UnitError::UnrecognizedUnitType));
    assert_eq!(UnitType::new("."), Err(UnitError::UnrecognizedUnitType));
    assert_eq!(UnitType::new(".."), Err(UnitError::UnrecognizedUnitType));
    assert_eq!(UnitType::new("system.d/sshd"), Err(UnitError::UnrecognizedUnitType));
}

#[test]
fn a_leading_dot_starts_no_extension() {
    assert_eq!(UnitType::new(".service"), Err(UnitError::UnrecognizedUnitType));
    assert_eq!(UnitType::new("/etc/systemd/.timer"), Err(UnitError::UnrecognizedUnitType));
    assert_eq!(UnitType::new(".hidden.timer"), Ok(UnitType::Timer));
}

#[test]
fn what_ends_the_path_without_naming_anything_is_set_aside() {
    assert_eq!(UnitType::new("system/sshd.service/"), Ok(UnitType::Service));
    assert_eq!(UnitType::new("system/sshd.service///"), Ok(UnitType::Service));
    assert_eq!(UnitType::new("system/sshd.service/."), Ok(UnitType::Service));
    assert_eq!(UnitType::new("system/sshd.service/./"), Ok(UnitType::Service));
    assert_eq!(UnitType::new("system/sshd.service/.."), Err(UnitError::UnrecognizedUnitType));
    assert_eq!(UnitType::new("system/sshd.service/x"), Err(UnitError::UnrecognizedUnitType));
}

#[test]
fn a_path_with_characters_of_several_bytes() {
    assert_eq!(UnitType::new("/srv/dépôt/café.service"), Ok(UnitType::Service));
    assert_eq!(UnitType::new("/srv/日本語.timer"), Ok(UnitType::Timer));
    assert_eq!(UnitType::new("日本語.日本語"), Err(UnitError::UnrecognizedUnitType));
}

#[test]
fn extension_of_a_file_name() {
    assert_eq!(extension("sshd.service"), Some("service"));
    assert_eq!(extension("/a/b.c/d.e.f"), Some("f"));
    assert_eq!(extension("archive.tar.gz"), Some("gz"));
    assert_eq!(extension("sshd."), Some(""));
    assert_eq!(extension("a.."), Some(""));
    assert_eq!(extension("sshd"), None);
    assert_eq!(extension(".profile"), None);
    assert_eq!(extension(".."), None);
    assert_eq!(extension("été.日本"), Some("日本"));
}

#[test]
fn extension_is_that_of_the_standard_library() {
    let paths = [
        "", "/", "//", ".", "..", "...", "./", "../", "./.", "/.", "/..", "a", "a.", "a..", ".a",
        "..a", ".a.", ".a.b", "a.b", "a.b.c", "a/b", "a/b.c", "a.b/c", "a.b/", "a.b//", "a.b/.",
        "a.b/./", "a.b/./.", "a.b/..", "a.b/../", "a.b/.c", "a.b/c.", "/a.b", "//a.b", "./a.b",
        "../a.b", "a.b/.//./", "a/.b.c/", "a/..b", "a/b..c", "x.service", "/x/y.z/w.timer/",
        "é.è", "é/.è", "a.é/", ". ", " .", "a. b", "a .b", "a\\b.c", "a.b\\c", "a.b/\\", "a.\n",
        "./.", "././", ".//.", "..//", "a/./b.c", "a/b.c/./.",
    ];
    for path in paths {
        let expected = Path::new(path).extension().map(|ext| ext.to_str().unwrap());
        assert_eq!(extension(path), expected, "for the path {:?}", path);
    }
}

fn sequences(pieces: &[&str], longest: usize) -> Vec<String> {
    let mut all = vec![String::new()];
    let mut last = vec![String::new()];
    for _ in 0..longest {
        let mut next = Vec::new();
        for start in &last {
            for piece in pieces {
                next.push(format!("{}{}", start, piece));
            }
        }
        all.extend(next.iter().cloned());
        last = next;
    }
    all
}

#[test]
fn extension_is_that_of_the_standard_library_on_every_short_path() {
    let paths = sequences(&["a", ".", "/", "é"], 6);
    assert_eq!(paths.len(), 5461);
    for path in &paths {
        let expected = Path::new(path).extension().map(|ext| ext.to_str().unwrap());
        assert_eq!(extension(path), expected, "for the path {:?}", path);
    }
}

fn named_by(suffix: &str) -> Option<UnitType> {
    match suffix {
        "automount" => Some(UnitType::Automount),
        "busname" => Some(UnitType::Busname),
        "mount" => Some(UnitType::Mount),
        "path" => Some(UnitType::Path),
        "scope" => Some(UnitType::Scope),
        "service" => Some(UnitType::Service),
        "slice" => Some(UnitType::Slice),
        "socket" => Some(UnitType::Socket),
        "swap" => Some(UnitType::Swap),
        "target" => Some(UnitType::Target),
        "timer" => Some(UnitType::Timer),
        _ => None,
    }
}

#[test]
fn classifies_as_the_extension_tells() {
    let pieces = [
        "/", ".", "x", "automount", "busname", "mount", "path", "scope", "service", "slice",
        "socket", "swap", "target", "timer", "Timer",
    ];
    let paths = sequences(&pieces, 4);
    assert_eq!(paths.len(), 54241);
    let mut classified = 0;
    for path in &paths {
        let expected = Path::new(path)
            .extension()
            .and_then(|ext| ext.to_str())
            .and_then(named_by)
            .ok_or(UnitError::UnrecognizedUnitType);
        assert_eq!(UnitType::new(path), expected, "for the path {:?}", path);
        assert_eq!(extension(path).and_then(UnitType::from_suffix), expected.ok());
        if expected.is_ok() {
            classified += 1;
        }
    }
    assert!(classified > 1000);
}
