//! Processes that are never touched.

use iframe::anticheat::{
    check_process, is_protected_module, is_protected_name, name_length, process_name, ProcessEntry,
};

#[test]
fn l1_contract_known_anticheat_services_detected() {
    let services = [
        "easyanticheat.exe",
        "easyanticheat_sys.exe",
        "easyanticheatsetup.exe",
        "beservice.exe",
        "beserver.exe",
        "beshellsvc.exe",
        "bedaisy.exe",
        "vgc.exe",
        "vgtray.exe",
        "vgk.exe",
        "faceitclient.exe",
        "faceit.exe",
        "eseaclient.exe",
        "mhyprot2.exe",
        "xigncode3.exe",
        "gameguard.exe",
    ];

    for s in services {
        assert!(is_protected_name(s), "Anti-cheat service '{s}' was NOT detected!");
    }
}

#[test]
fn l1_contract_known_protected_games_detected() {
    let games = [
        "valorant.exe",
        "fortniteclient-win64-shipping.exe",
        "rustclient.exe",
        "escapefromtarkov.exe",
        "r5apex.exe",
        "apex_legends.exe",
        "cod.exe",
        "modernwarfare.exe",
        "gta5.exe",
        "pubg.exe",
        "tslgame.exe",
        "rainbowsix.exe",
        "destiny2.exe",
        "genshinimpact.exe",
        "zenlesszonezero.exe",
        "dayz_x64.exe",
        "arma3_x64.exe",
    ];

    for g in games {
        assert!(is_protected_name(g), "Protected game '{g}' was NOT detected!");
    }
}

#[test]
fn l2_boundary_case_insensitivity() {
    let mixed_cases = [
        "VALORANT.EXE",
        "VaLoRaNt.ExE",
        "EASYANTICHEAT.EXE",
        "EasyAntiCheat.exe",
        "BeService.EXE",
        "VGC.EXE",
        "GenshinImpact.EXE",
        "Apex_Legends.EXE",
    ];

    for name in mixed_cases {
        assert!(is_protected_name(name), "Case-insensitive matching failed for '{name}'");
    }
}

#[test]
fn l2_boundary_empty_and_special_strings() {
    assert!(!is_protected_name(""));
    assert!(!is_protected_name("   "));
    assert!(!is_protected_name("\0"));
    assert!(!is_protected_name("valorant_mod.exe"));
    assert!(!is_protected_name("not_easyanticheat.exe"));
}

#[test]
fn l9_negative_space_benign_processes_not_blocked() {
    let benign = [
        "d3d11_test_app.exe",
        "d3d9_test_app.exe",
        "iframe.exe",
        "notepad.exe",
        "explorer.exe",
        "cyberpunk2077.exe",
        "witcher3.exe",
        "eldenring.exe",
        "skyrimse.exe",
        "doom.exe",
        "portal2.exe",
    ];

    for b in benign {
        assert!(!is_protected_name(b), "Benign process '{b}' was falsely flagged as protected!");
    }
}

#[test]
fn a_process_that_does_not_run_has_no_name() {
    let list = vec![
        ProcessEntry { pid: 4, name: "System".to_string() },
        ProcessEntry { pid: 40, name: "game.exe".to_string() },
        ProcessEntry { pid: 40, name: "other.exe".to_string() },
    ];
    assert_eq!(process_name(40, &list).unwrap(), "game.exe");
    assert!(process_name(4_000_000_000, &list).is_err());
    assert!(process_name(4_000_000_000, &Vec::new()).unwrap_err().contains("4000000000"));
}

#[test]
fn refusals_name_their_reason() {
    let clean = vec!["d3d11.dll".to_string(), "kernel32.dll".to_string()];
    assert!(check_process(7, "doom.exe", &clean).is_ok());

    let refused = check_process(7, "Valorant.exe", &clean).unwrap_err();
    assert!(refused.starts_with("REFUSED: 'Valorant.exe'"));

    let guarded = vec!["d3d11.dll".to_string(), "EasyAntiCheat_x64.dll".to_string()];
    let refused = check_process(7, "doom.exe", &guarded).unwrap_err();
    assert!(refused.starts_with("REFUSED: anti-cheat module"));
    assert!(refused.contains("pid 7"));
    assert!(is_protected_module("EASYANTICHEAT.dll"));
    assert!(!is_protected_module("d3d11.dll"));
}

#[test]
fn a_name_ends_in_a_zero() {
    assert_eq!(name_length(&vec![65, 66, 0, 67, 0]), 2);
    assert_eq!(name_length(&vec![0, 65]), 0);
    assert_eq!(name_length(&vec![65, 66]), 0);
    assert_eq!(name_length(&vec![]), 0);
}
