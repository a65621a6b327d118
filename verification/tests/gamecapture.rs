use momentum_app::gamecapture::{arm_hook_info, GraphicsOffsets, HookInfo};
use momentum_app::gamecapture::{
    frame_interval_ns, inject_plan, name_with_id, offsets_probe_name, parse_hex, parse_offsets,
    texture_map_name, texture_ready, InjectPlan, EVENT_CAPTURE_RESTART, SHMEM_HOOK_INFO,
};

#[test]
fn kernel_object_names() {
    assert_eq!(name_with_id(EVENT_CAPTURE_RESTART, 42), "CaptureHook_Restart42");
    assert_eq!(name_with_id(SHMEM_HOOK_INFO, 7), "CaptureHook_HookInfo7");
    assert_eq!(texture_map_name(1234, 2), "CaptureHook_Texture_1234_2");
}

#[test]
fn texture_and_timing() {
    assert!(texture_ready(1, 1920, 1080));
    assert!(!texture_ready(0, 1920, 1080));
    assert!(!texture_ready(1, 0, 1080));
    assert_eq!(frame_interval_ns(60), 16_666_666);
    assert_eq!(frame_interval_ns(0), 1_000_000_000);
}

#[test]
fn injection_plans() {
    assert_eq!(inject_plan(10, 20, true, false, true), InjectPlan::Direct { hook_dll: "graphics-hook64.dll" });
    assert_eq!(
        inject_plan(10, 20, true, true, true),
        InjectPlan::Helper {
            hook_dll: "graphics-hook64.dll",
            helper: "inject-helper64.exe",
            anticheat_flag: "1",
            id: 20
        }
    );
    assert_eq!(
        inject_plan(10, 20, false, false, true),
        InjectPlan::Helper {
            hook_dll: "graphics-hook32.dll",
            helper: "inject-helper32.exe",
            anticheat_flag: "0",
            id: 10
        }
    );
    assert_eq!(offsets_probe_name(false), "get-graphics-offsets32.exe");
}

#[test]
fn hex_offsets() {
    assert_eq!(parse_hex("0x1A"), Ok(26));
    assert_eq!(parse_hex("0XfF"), Ok(255));
    assert_eq!(parse_hex("10"), Ok(16));
    assert_eq!(parse_hex("zz"), Err("bad hex 'zz': invalid digit found in string".to_string()));
    assert_eq!(parse_hex("0x"), Err("bad hex '': cannot parse integer from empty string".to_string()));
    assert_eq!(
        parse_hex("0x100000000"),
        Err("bad hex '100000000': number too large to fit in target type".to_string())
    );
}

#[test]
fn offsets_probe_output() {
    let text = "[d3d9]\npresent=0x10\r\npresent_ex=0x20\n[dxgi]\n present = 0x30 \nrelease=0x40\nresize=0x50\n[other]\npresent=0x99\nnoise\n";
    let o = parse_offsets(text).unwrap();
    assert_eq!(o.d3d9.present, 0x10);
    assert_eq!(o.d3d9.present_ex, 0x20);
    assert_eq!(o.dxgi.present, 0x30);
    assert_eq!(o.dxgi2.release, 0x40);
    assert_eq!(o.dxgi.resize, 0x50);
    assert_eq!(o.d3d8.present, 0);
}

#[test]
fn offsets_probe_failures() {
    assert_eq!(
        parse_offsets("[d3d8]\npresent=0x1\n"),
        Err("offsets probe returned no dxgi.present".to_string())
    );
    assert_eq!(
        parse_offsets("[dxgi]\npresent=0xg\n"),
        Err("bad hex 'g': invalid digit found in string".to_string())
    );
}

#[test]
fn arming_sets_the_hook_options() {
    let mut offsets = GraphicsOffsets::default();
    offsets.dxgi.present = 0x123;
    let mut hi = HookInfo {
        hook_ver_major: 1,
        hook_ver_minor: 2,
        capture_type: 0,
        window: 0,
        format: 0,
        cx: 0,
        cy: 0,
        unused_base_cx: 0,
        unused_base_cy: 0,
        pitch: 0,
        map_id: 0,
        map_size: 0,
        flip: 0,
        frame_interval: 0,
        unused_use_scale: 1,
        force_shmem: 1,
        capture_overlay: 1,
        allow_srgb_alias: 0,
        offsets: GraphicsOffsets::default(),
        reserved: [0; 126],
    };
    arm_hook_info(&mut hi, offsets, 60);
    assert_eq!(hi.offsets.dxgi.present, 0x123);
    assert_eq!((hi.capture_overlay, hi.force_shmem, hi.unused_use_scale, hi.allow_srgb_alias), (0, 0, 0, 1));
    assert_eq!(hi.frame_interval, 16_666_666);
    assert_eq!(hi.hook_ver_minor, 2);
}
