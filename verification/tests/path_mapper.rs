use ccgo::path_mapper::{HostOs, PathMapper};

#[test]
fn test_wsl_path_conversion() {
    let win_path = r"C:\Users\test\file.txt";
    let wsl_path = PathMapper::to_wsl_path(win_path);
    assert_eq!(wsl_path, "/mnt/c/Users/test/file.txt");
}

#[test]
fn test_windows_path_conversion() {
    let wsl_path = "/mnt/c/Users/test/file.txt";
    let win_path = PathMapper::to_windows_path(wsl_path);
    assert_eq!(win_path, r"C:\Users\test\file.txt");
}

#[test]
fn test_to_wsl_path_non_drive_input() {
    assert_eq!(PathMapper::to_wsl_path(r"relative\dir\file"), "relative/dir/file");
    assert_eq!(PathMapper::to_wsl_path("/already/unix"), "/already/unix");
}

#[test]
fn test_to_windows_path_non_mnt_input() {
    assert_eq!(PathMapper::to_windows_path("/home/user/x"), "/home/user/x");
    assert_eq!(PathMapper::to_windows_path("/mnt/c"), "/mnt/c");
}

#[test]
fn test_drive_letter_case() {
    assert_eq!(PathMapper::to_wsl_path(r"d:\x"), "/mnt/d/x");
    assert_eq!(PathMapper::to_windows_path("/mnt/x/y"), r"X:\y");
}

#[test]
fn test_expand_home_with() {
    let home = String::from("/home/tester");
    assert_eq!(PathMapper::expand_home_with("~/logs", Some(&home)), "/home/tester/logs");
    assert_eq!(PathMapper::expand_home_with("~/logs", None), "~/logs");
    assert_eq!(PathMapper::expand_home_with("/abs/path", Some(&home)), "/abs/path");
}

#[test]
fn test_normalize_plain_path() {
    assert_eq!(PathMapper::normalize("/var/log", false), "/var/log");
    assert_eq!(PathMapper::normalize(r"C:\Users\t", true), "/mnt/c/Users/t");
}

#[test]
fn test_get_platform() {
    assert_eq!(PathMapper::get_platform(true, HostOs::Linux), "wsl");
    assert_eq!(PathMapper::get_platform(false, HostOs::Linux), "linux");
    assert_eq!(PathMapper::get_platform(false, HostOs::Windows), "windows");
    assert_eq!(PathMapper::get_platform(false, HostOs::Macos), "macos");
}

#[test]
fn test_wsl_windows_round_trip() {
    // A WSL drive path survives the trip to Windows form and back.
    let p = "/mnt/c/Users/test/file.txt";
    assert_eq!(PathMapper::to_wsl_path(&PathMapper::to_windows_path(p)), p);
    // And a Windows drive path survives the inverse trip.
    let w = r"C:\Users\test\file.txt";
    assert_eq!(PathMapper::to_windows_path(&PathMapper::to_wsl_path(w)), w);
}
