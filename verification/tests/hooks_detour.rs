//! Hooks: tables, detours and the arguments of present calls.

use iframe::config::RuntimeConfig;
use iframe::hooks::d3d9;
use iframe::hooks::d3d9::find_vtable_templates;
use iframe::hooks::detour::{jump_from_to, jump_to, make_detour_14, make_detour_5};
use iframe::hooks::dxgi::{
    force_waitable_desc, mode_label, present_record, reflex_label, resize_flags, PresentRecord,
    SwapchainTracker, FLAG_ALLOW_TEARING, FLAG_WAITABLE_OBJECT, PRESENT_ALLOW_TEARING,
};
use iframe::hooks::opengl::OpenGlHooks;
use iframe::hooks::vtable::{patch_vtable_slot, restore_vtable, slot_page, PatchedSlots, SavedSlot};
use iframe::hooks::vulkan::VulkanHooks;
use iframe::hooks::{install, paces};
use iframe::overlay::{fits, get_glyph, BufferPlan, OverlayState, OverlayToggle};
use iframe::pacer::PacerMode;

#[test]
fn l1_contract_override_sync_all_modes_verified() {
    let mut t = SwapchainTracker::new();

    // 1. Tearing supported -> (0, ALLOW_TEARING)
    t.set_caps_for_test(true, true, false);
    let (sync, flags) = t.override_sync(1, 0, true);
    assert_eq!(sync, 0, "SyncInterval must be 0 for paced presentation");
    assert_eq!(
        flags, PRESENT_ALLOW_TEARING,
        "ALLOW_TEARING flag must be added when tearing is supported"
    );

    // 2. Windowed without tearing -> (0, 0)
    t.set_caps_for_test(true, false, false);
    let (sync, flags) = t.override_sync(1, 0, true);
    assert_eq!(sync, 0, "SyncInterval must be 0 for windowed DWM flip");
    assert_eq!(flags, 0, "No tearing flag for standard windowed");

    // 3. Fullscreen exclusive without tearing -> preserves game's sync_interval
    t.set_caps_for_test(false, false, false);
    let (sync, flags) = t.override_sync(1, 0, true);
    assert_eq!(sync, 1, "Exclusive fullscreen without tearing preserves game sync interval");
    assert_eq!(flags, 0);

    // 4. Disabled override -> pass through untouched
    t.set_caps_for_test(true, true, true);
    let (sync, flags) = t.override_sync(2, 0x40, false);
    assert_eq!(sync, 2, "Disabled override must pass original sync_interval");
    assert_eq!(flags, 0x40, "Disabled override must pass original flags");
}

#[test]
fn l2_boundary_force_waitable_null_pointers() {
    assert!(force_waitable_desc(None, true).is_none());
    assert!(force_waitable_desc(None, false).is_none());
}

#[test]
fn l3_property_desc_flags_preservation() {
    // When the settings do not ask for it, returns None
    assert!(force_waitable_desc(Some(FLAG_ALLOW_TEARING), false).is_none());
    let result = force_waitable_desc(Some(FLAG_ALLOW_TEARING), true);
    assert!(result.unwrap() & FLAG_ALLOW_TEARING != 0);
    assert!(result.unwrap() & FLAG_WAITABLE_OBJECT != 0);

    // If flag is already present, returns None (nothing to change)
    assert!(force_waitable_desc(Some(FLAG_WAITABLE_OBJECT), true).is_none());
    assert_eq!(resize_flags(FLAG_ALLOW_TEARING, false), FLAG_ALLOW_TEARING);
    assert_eq!(
        resize_flags(FLAG_ALLOW_TEARING, true),
        FLAG_ALLOW_TEARING | FLAG_WAITABLE_OBJECT
    );
}

#[test]
fn l3_property_vtable_patch_and_restore() {
    let mut fake_vtable = vec![0x1000, 0x2000, 0x3000, 0x4000];
    let hook_fn = 0x9999;

    let orig = patch_vtable_slot(&mut fake_vtable, 1, hook_fn);
    assert_eq!(orig, 0x2000);
    assert_eq!(fake_vtable[1], hook_fn);

    restore_vtable(&mut fake_vtable, 1, orig);
    assert_eq!(fake_vtable[1], 0x2000);
}

/// An image with a DOS header and a 64-bit optional header that states its size.
fn fake_image(len: usize) -> Vec<u8> {
    let mut image = vec![0u8; len];
    image[0] = 0x4D;
    image[1] = 0x5A;
    image[60] = 64;
    let opt = 64 + 24;
    image[opt] = 0x0B;
    image[opt + 1] = 0x02;
    image[opt + 56..opt + 60].copy_from_slice(&(len as u32).to_le_bytes());
    image
}

#[test]
fn l4_adversarial_find_vtable_templates_null_and_corrupt_headers() {
    let dummy_vtable = vec![0xDEADBEEFu64; 16];

    // 1. Nothing at all
    assert!(find_vtable_templates(&Vec::new(), &dummy_vtable).is_empty());

    // 2. Corrupt DOS magic (not 'MZ' / 0x5A4D)
    let res_bad_magic = find_vtable_templates(&vec![0u8; 1024], &dummy_vtable);
    assert!(res_bad_magic.is_empty());

    // 3. Valid DOS magic but non-matching signature
    let res_no_match = find_vtable_templates(&fake_image(1024), &dummy_vtable);
    assert!(res_no_match.is_empty(), "Random bytes should not match 16-slot vtable");
}

#[test]
fn l4_adversarial_find_vtable_templates_matches_injected_signature() {
    let mut image = fake_image(4096);

    // Create 16 signature pointers
    let mut vtable_sig = vec![0u64; 16];
    for i in 0..16 {
        vtable_sig[i] = 0x1000_0000 + i as u64 * 0x10;
    }

    // Embed signature at offset 512 in fake image
    let target_offset = 512;
    for i in 0..16 {
        let at = target_offset + 8 * i;
        image[at..at + 8].copy_from_slice(&vtable_sig[i].to_le_bytes());
    }

    let found = find_vtable_templates(&image, &vtable_sig);

    assert_eq!(found.len(), 1, "Template signature must be discovered at exact offset");
    assert_eq!(found[0], target_offset);
}

#[test]
fn l4_adversarial_make_detour_null_pointers_rejected() {
    let stolen = vec![0x90u8; 14];
    assert!(make_detour_14(0, 0, &stolen).is_err());
    assert!(make_detour_14(1, 0, &stolen).is_err());
    assert!(make_detour_14(0, 1, &stolen).is_err());
}

#[test]
fn detours_jump_there_and_back() {
    // FF 25 00000000 and the address.
    assert_eq!(
        jump_to(0x1122_3344_5566_7788),
        vec![0xFF, 0x25, 0, 0, 0, 0, 0x88, 0x77, 0x66, 0x55, 0x44, 0x33, 0x22, 0x11]
    );
    // E9 and the distance from the end of the jump.
    assert_eq!(jump_from_to(0x1000, 0x2000), vec![0xE9, 0xFB, 0x0F, 0, 0]);
    assert_eq!(jump_from_to(0x2000, 0x1000), vec![0xE9, 0xFB, 0xEF, 0xFF, 0xFF]);

    let stolen: Vec<u8> = (0..14).collect();
    let d = make_detour_14(0x1000, 0x2000, &stolen).unwrap();
    assert_eq!(d.patch, jump_to(0x2000));
    assert_eq!(&d.trampoline[..14], &stolen[..]);
    assert_eq!(&d.trampoline[14..], &jump_to(0x100E)[..]);

    let stolen: Vec<u8> = (0..5).collect();
    let d = make_detour_5(0x1000, 0x2000, &stolen, 0x3000).unwrap();
    assert_eq!(d.patch, jump_from_to(0x1000, 0x2000));
    assert_eq!(&d.trampoline[5..], &jump_from_to(0x3005, 0x1005)[..]);
    assert!(make_detour_5(0, 1, &stolen, 0x3000).is_err());
}

#[test]
fn patched_slots_are_given_back_once() {
    let mut hooks = PatchedSlots::new();
    assert!(!hooks.is_installed());
    hooks.save(SavedSlot { table: 0x10, index: 8, original: 0x99 });
    hooks.save(SavedSlot { table: 0x20, index: 17, original: 0x77 });
    assert!(hooks.is_installed());
    let writes = d3d9::uninstall(&mut hooks);
    assert_eq!(writes.len(), 2);
    assert!(!hooks.is_installed());
    assert!(d3d9::uninstall(&mut hooks).is_empty());
    assert_eq!(slot_page(0x1_0FF8, 1), 0x1_1000);
    assert_eq!(slot_page(0x1_0FF8, 0), 0x1_0000);
}

#[test]
fn the_first_swapchain_is_followed() {
    let cfg = RuntimeConfig { enabled: true, ..RuntimeConfig::default() };
    assert!(paces(&cfg));
    assert!(!paces(&RuntimeConfig { mode: PacerMode::Bypass, ..cfg }));
    let mut t = SwapchainTracker::new();
    let start = t.begin_present(7, &cfg);
    assert!(start.active && start.pacing && start.limit_latency && start.query_caps);
    t.caps_queried(true, true, false);
    let again = t.begin_present(7, &cfg);
    assert!(again.pacing && !again.limit_latency && !again.query_caps);
    assert_eq!(t.present_args(&again, 1, 0, &cfg), (0, PRESENT_ALLOW_TEARING));
    assert_eq!(
        present_record(&again, true, 0),
        PresentRecord::Paced { vsync_overridden: true }
    );
    // Another swapchain is left alone.
    let other = t.begin_present(8, &cfg);
    assert!(!other.active && !other.pacing);
    assert_eq!(t.present_args(&other, 1, 0, &cfg), (1, 0));
    assert_eq!(present_record(&other, false, 1), PresentRecord::Nothing);
    // A new one takes over.
    t.on_swapchain_created(8, false, FLAG_WAITABLE_OBJECT);
    assert!(t.begin_present(8, &cfg).active);
    assert!(!t.begin_present(7, &cfg).active);
    t.resized(0);
    assert!(!t.caps.valid);
}

#[test]
fn an_installation_is_judged_by_its_swapchain_hooks() {
    assert_eq!(install(true, true).state, Some(1));
    assert_eq!(install(true, false).state, Some(2));
    assert_eq!(install(false, true).state, None);
    assert!(install(true, true).ok && !install(true, false).ok && !install(false, true).ok);
    let mut gl = OpenGlHooks::new();
    assert!(!gl.install(None, None));
    assert!(gl.install(Some(5), None));
    gl.uninstall();
    assert!(!gl.installed);
    let mut vk = VulkanHooks::new();
    assert_eq!(vk.real_present(), None);
    vk.driver_answered(0x44);
    assert_eq!(vk.real_present(), Some(0x44));
}

#[test]
fn labels_of_the_overlay() {
    assert!(!mode_label(PacerMode::Vrr).is_empty());
    assert_ne!(mode_label(PacerMode::Vrr), mode_label(PacerMode::Bypass));
    assert_ne!(
        reflex_label(true, iframe::config::ReflexMode::Boost),
        reflex_label(false, iframe::config::ReflexMode::Boost)
    );
    assert_eq!(get_glyph('1'), [0x00, 0x42, 0x7F, 0x40, 0x00]);
    assert_eq!(get_glyph('~'), [0, 0, 0, 0, 0]);
}

#[test]
fn the_overlay_key_flips_on_its_way_down() {
    let mut t = OverlayToggle::new();
    let was = t.is_visible();
    t.poll_hotkey(true);
    assert_eq!(t.is_visible(), !was);
    t.poll_hotkey(true);
    assert_eq!(t.is_visible(), !was);
    t.poll_hotkey(false);
    t.poll_hotkey(true);
    assert_eq!(t.is_visible(), was);
    t.set_visible(false);
    assert!(!t.is_visible());
}

#[test]
fn the_overlay_draws_into_a_buffer_that_holds_it() {
    let mut s = OverlayState::new(1);
    s.record(20_000_000);
    let quads = s.render("60.0 FPS", "VRR");
    assert!(quads.len() > 60);
    match s.buffer_plan(6 * quads.len()) {
        BufferPlan::Create(cap) => {
            assert!(cap >= 6 * quads.len() && cap.is_power_of_two());
            s.buffer_created(cap);
        }
        BufferPlan::Reuse => panic!("there is no buffer yet"),
    }
    assert!(matches!(s.buffer_plan(10), BufferPlan::Reuse));
    s.use_device(2);
    assert!(!s.has_buffer);
    assert!(fits(1920, 1080) && !fits(0, 0));
}
