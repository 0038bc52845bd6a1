use nixinfo::cpu::{cpu_model, model_line};
use nixinfo::packages::{dpkg_installed, manager, pacman_count, pip_count, portage, unsupported};
use nixinfo::{
    count, cpu, de, device_android, device_model, dist, distro_android, environment, get, gpu,
    hex_id, hostname, kernel, music, now_playing, uptime_seconds, wm, Manager,
};

const CPUINFO: &str = "processor\t: 0\nmodel name\t: ARMv7 Processor rev 4 (v7l)\nBogoMIPS\t: 38.40\n\
Features\t: half thumb\nmodel name\t: Intel(R) Core(TM) i7-8550U CPU @ 1.80GHz\n";

#[test]
fn cpu_format_drops_marks() {
    assert_eq!(nixinfo::cpu::format("Intel(R) Core(TM) i7-8550U CPU"), "Intel Core i7-8550U CPU");
    assert_eq!(nixinfo::cpu::format("AMD Ryzen     7"), "AMD Ryzen 7");
    assert_eq!(nixinfo::cpu::format("a          b"), "a  b");
    assert_eq!(nixinfo::cpu::format(""), "");
}

#[test]
fn cpu_get_reads_the_value_of_a_line() {
    assert_eq!(get(CPUINFO, 1), Some(" ARMv7 Processor rev 4 (v7l)".to_string()));
    assert_eq!(get(CPUINFO, 9), None);
    assert_eq!(get("no colon here", 0), None);
}

#[test]
fn cpu_model_by_line() {
    assert_eq!(
        cpu_model(CPUINFO, 4),
        Some("Intel Core i7-8550U CPU @ 1.80GHz".to_string())
    );
    assert_eq!(cpu_model(CPUINFO, 1), Some("ARMv7 Processor rev 4 (v7l)".to_string()));
}

#[test]
fn cpu_line_choice() {
    assert_eq!(model_line(Some("Raspberry Pi 4 Model B"), false), 1);
    assert_eq!(model_line(Some("Pine64 PinePhone"), true), 4);
    assert_eq!(model_line(None, true), 1);
    assert_eq!(model_line(None, false), 4);
    assert_eq!(
        cpu(CPUINFO, None, false),
        Some("Intel Core i7-8550U CPU @ 1.80GHz".to_string())
    );
    assert_eq!(
        cpu(CPUINFO, Some("Raspberry Pi 3"), false),
        Some("ARMv7 Processor rev 4 (v7l)".to_string())
    );
}

#[test]
fn text_line_by_index() {
    assert_eq!(nixinfo::text::line("a\nb\n", 1), Some("b".to_string()));
    assert_eq!(nixinfo::text::line("a\nb\n", 2), Some(String::new()));
    assert_eq!(nixinfo::text::line("a\nb\n", 3), None);
}

#[test]
fn distro_name_from_os_release() {
    let os_release = "NAME=\"Arch Linux\"\nPRETTY_NAME=\"Arch Linux\"\nID=arch\n";
    assert_eq!(dist(os_release), Some("Arch Linux".to_string()));
    assert_eq!(dist("NAME=Gentoo\n"), Some("Gentoo".to_string()));
    assert_eq!(dist("garbage\n"), None);
    assert_eq!(distro_android(" 13\n", "lineage_x-userdebug\n"), "Android 13 (lineage_x-userdebug)");
}

#[test]
fn desktop_environment_choice() {
    assert_eq!(de(Some("gnome".to_string()), Some("KDE".to_string()), None), "gnome");
    assert_eq!(de(None, Some("KDE".to_string()), Some("plasma".to_string())), "KDE");
    assert_eq!(de(None, None, Some("xfce".to_string())), "xfce");
    assert_eq!(de(None, None, None), "N/A");
    assert_eq!(environment("N/A".to_string(), Some("dwm".to_string())), Some("dwm".to_string()));
    assert_eq!(environment("sway".to_string(), Some("dwm".to_string())), Some("sway".to_string()));
    assert_eq!(environment("N/A".to_string(), None), None);
}

#[test]
fn window_manager_from_xinitrc() {
    assert_eq!(wm("xrdb ~/.Xresources\nexec i3\n"), Some("i3".to_string()));
    assert_eq!(wm("exec dbus-launch bspwm"), Some("bspwm".to_string()));
    assert_eq!(wm(""), None);
    assert_eq!(wm("\n"), Some(String::new()));
}

#[test]
fn device_and_host_names() {
    assert_eq!(device_android("walleye\n", " Pixel 2", "walleye "), "walleye Pixel 2 (walleye)");
    assert_eq!(device_model("ThinkPad X1 Carbon\n"), "ThinkPad X1 Carbon");
    assert_eq!(device_model("  Board\nRev 2 \n"), "BoardRev 2");
    assert_eq!(hostname("archbox\n"), "archbox");
    assert_eq!(kernel("6.1.0-13-amd64\n"), "6.1.0-13-amd64");
    assert_eq!(uptime_seconds("350735.47 234388.90\n"), Some(350735));
    assert_eq!(uptime_seconds("abc"), None);
}

#[test]
fn environment_variable_or_message() {
    assert_eq!(nixinfo::host::env("SHELL", Some("/bin/zsh".to_string())), "/bin/zsh");
    assert_eq!(nixinfo::host::env("EDITOR", None), "N/A (could not read $EDITOR, are you sure it's set?)");
}

#[test]
fn music_lines() {
    assert_eq!(music(), "N/A (music feature must be used to pull in the mpd dependency)");
    let tags = vec![
        ("Genre".to_string(), "Rock".to_string()),
        ("Album".to_string(), "Abbey Road".to_string()),
        ("Date".to_string(), "1969".to_string()),
    ];
    assert_eq!(
        now_playing(Some("Something".to_string()), Some("The Beatles".to_string()), &tags),
        Some("The Beatles - Abbey Road (1969) - Something".to_string())
    );
    assert_eq!(
        now_playing(Some("Something".to_string()), None, &tags),
        Some("N/A - Abbey Road (1969) - Something".to_string())
    );
    assert_eq!(now_playing(None, None, &tags), None);
    assert_eq!(now_playing(Some("x".to_string()), None, &tags[..2].to_vec()), None);
}

const PCI_IDS: &str = "# comment\n\
1002  Advanced Micro Devices, Inc. [AMD/ATI]\n\
\t67df  Ellesmere [Radeon RX 470/480/570/570X/580/580X/590]\n\
10de  NVIDIA Corporation\n\
\t1b80  GP104 [GeForce GTX 1080]\n\
\t1b81  GP104 [GeForce GTX 1070]\n\
8086  Intel Corporation\n";

#[test]
fn gpu_names_from_pci_ids() {
    assert_eq!(hex_id("0x10de\n"), Some("10de".to_string()));
    assert_eq!(hex_id("10de"), None);
    let devices = vec!["1b81".to_string()];
    let vendors = vec!["10de".to_string()];
    assert_eq!(
        gpu(&devices, &vendors, PCI_IDS),
        Some(vec!["GP104 [GeForce GTX 1070]".to_string()])
    );
    let devices = vec!["67df".to_string(), "1b80".to_string()];
    let vendors = vec!["1002".to_string(), "10de".to_string()];
    assert_eq!(
        gpu(&devices, &vendors, PCI_IDS),
        Some(vec![
            "Ellesmere [Radeon RX 470/480/570/570X/580/580X/590]".to_string(),
            "GP104 [GeForce GTX 1080]".to_string()
        ])
    );
    assert_eq!(gpu(&vec![], &vec![], PCI_IDS), Some(vec![]));
    assert_eq!(gpu(&vec!["beef".to_string()], &vec!["beef".to_string()], "beef single\n"), None);
}

#[test]
fn package_counts() {
    assert_eq!(count(&b"a\nb\nc\n".to_vec()), 3);
    assert_eq!(count(&Vec::new()), 0);
    assert_eq!(count(&vec![0xff, b'\n', 0xfe]), 1);
    assert_eq!(pip_count(&b"Package Version\n------- -------\nrequests 2.31\n".to_vec()), Some(1));
    assert_eq!(pip_count(&b"oops\n".to_vec()), None);
    assert_eq!(pacman_count(12), Some(11));
    assert_eq!(pacman_count(0), None);
    let status = "Package: a\nStatus: install ok installed\n\nPackage: b\nStatus: deinstall ok config-files\n\nPackage: c\nStatus: install ok installed\n";
    assert_eq!(dpkg_installed(status), 2);
    assert_eq!(portage("sys-apps/a\napp-misc/b\n", 250), "2 (explicit), 250 (total)");
}

#[test]
fn package_manager_names() {
    assert_eq!(manager("apt"), Some(Manager::Dpkg));
    assert_eq!(manager("dpkg"), Some(Manager::Dpkg));
    assert_eq!(manager("pacman"), Some(Manager::Pacman));
    assert_eq!(manager("xbps"), Some(Manager::Xbps));
    assert_eq!(manager("nix"), None);
    assert_eq!(unsupported("nix"), "N/A (nix is not supported, please file a bug to get it added!)");
}
