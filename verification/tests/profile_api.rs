use ultimate64_manager::config_tree::{ConfigTree, ConfigValue};
use ultimate64_manager::profile_api::{bare_host_pub, is_device_path, requires_reboot};

#[test]
fn bare_host_strips_the_scheme() {
    assert_eq!(bare_host_pub("http://192.168.1.91"), "192.168.1.91");
    assert_eq!(bare_host_pub("https://u64.local"), "u64.local");
    assert_eq!(bare_host_pub("192.168.1.91"), "192.168.1.91");
    assert_eq!(bare_host_pub("ftp://x"), "ftp://x");
}

fn diff(category: &str, keys: &[&str]) -> ConfigTree {
    let mut t = ConfigTree::new();
    t.set("Audio Mixer".to_string(), "Vol UltiSid 2".to_string(), ConfigValue::Text("0 dB".to_string()));
    for k in keys {
        t.set(category.to_string(), k.to_string(), ConfigValue::Text("changed".to_string()));
    }
    t
}

#[test]
fn rom_changes_need_a_reboot() {
    assert!(requires_reboot(&diff("C64 and Cartridge Settings", &["Kernal ROM"])));
    assert!(requires_reboot(&diff("Drive A Settings", &["ROM for 1541 mode"])));
    assert!(requires_reboot(&diff("Drive A Settings", &["1571 ROM file"])));
    assert!(requires_reboot(&diff("C64 and Cartridge Settings", &["Cartridge"])));
}

#[test]
fn other_changes_do_not() {
    assert!(!requires_reboot(&diff("Audio Mixer", &["Vol UltiSid 1"])));
    assert!(!requires_reboot(&diff("U64 Specific Settings", &["Cartridge"])));
    assert!(!requires_reboot(&diff("Drive A Settings", &["ROM"])));
    assert!(!requires_reboot(&ConfigTree::new()));
}

#[test]
fn device_paths_are_recognised() {
    assert!(is_device_path("/Usb0/games/a.d64"));
    assert!(is_device_path("//SD/x"));
    assert!(is_device_path("flash/roms"));
    assert!(is_device_path("/Temp/x.prg"));
    assert!(is_device_path("/RAMDISK/x"));
    assert!(!is_device_path("/home/user/a.d64"));
    assert!(!is_device_path(""));
}
