use absm_client::geometry::{Pair, Rect};
use absm_client::session::ServerInfo;
use absm_client::setup::{Config, MouseMove, Remote, Setup, NORMALIZED_ONE};

fn config(target: [i32; 4], source: [i32; 4], keep: bool, device_fix: bool, fix: bool) -> Config {
    let target = Rect { min: Pair([target[0], target[1]]), max: Pair([target[2], target[3]]) };
    Config {
        target,
        source: Rect { min: Pair([source[0], source[1]]), max: Pair([source[2], source[3]]) },
        clip: target,
        correct_device_orientation: device_fix,
        correct_orientation: fix,
        keep_aspect_ratio: keep,
        pressure_range: [None, None],
        size_range: [None, None],
        remote: Remote::Tcp("localhost".to_string(), 8517),
        android_usb_port: 8517,
        android_attempt_usb_connection: false,
    }
}

fn device(w: i32, h: i32) -> ServerInfo {
    ServerInfo { version: (1, 0), server_screen_res: Pair([w, h]) }
}

fn touch(x: i32, y: i32) -> MouseMove {
    MouseMove { pos: Pair([x, y]), pressure: 500, size: 10 }
}

#[test]
fn end_to_end_center_maps_to_center() {
    let cfg = config([0, 0, 1920, 1080], [500, 500, 9500, 9500], false, false, false);
    let setup = Setup::new(&device(1920, 1080), &cfg).unwrap();
    assert_eq!(setup.consume(touch(960, 540)).unwrap().0, [960, 540]);
}

#[test]
fn end_to_end_source_corners_map_to_target_corners() {
    let cfg = config([0, 0, 1920, 1080], [500, 500, 9500, 9500], false, false, false);
    let setup = Setup::new(&device(1920, 1080), &cfg).unwrap();
    // 5% of 1920 is 96, 5% of 1080 is 54.
    assert_eq!(setup.consume(touch(96, 54)).unwrap().0, [0, 0]);
    assert_eq!(setup.consume(touch(1824, 1026)).unwrap().0, [1920, 1080]);
}

#[test]
fn clipping_clamps_outside_points() {
    let mut cfg = config([0, 0, 1920, 1080], [0, 0, 10000, 10000], false, false, false);
    cfg.clip = Rect { min: Pair([0, 0]), max: Pair([1919, 1079]) };
    let setup = Setup::new(&device(1920, 1080), &cfg).unwrap();
    assert_eq!(setup.consume(touch(2500, -40)).unwrap().0, [1919, 0]);
    assert_eq!(setup.consume(touch(-1, 5000)).unwrap().0, [0, 1079]);
    assert_eq!(setup.consume(touch(1920, 1080)).unwrap().0, [1919, 1079]);
}

#[test]
fn clipping_passes_inside_points() {
    let mut cfg = config([0, 0, 1920, 1080], [0, 0, 10000, 10000], false, false, false);
    cfg.clip = Rect { min: Pair([0, 0]), max: Pair([1919, 1079]) };
    let setup = Setup::new(&device(1920, 1080), &cfg).unwrap();
    assert_eq!(setup.consume(touch(123, 456)).unwrap().0, [123, 456]);
    assert_eq!(setup.consume(touch(0, 0)).unwrap().0, [0, 0]);
}

#[test]
fn filtering_by_pressure() {
    let mut cfg = config([0, 0, 1920, 1080], [0, 0, 10000, 10000], false, false, false);
    cfg.pressure_range = [Some(0), Some(1000)];
    let setup = Setup::new(&device(1920, 1080), &cfg).unwrap();
    let heavy = MouseMove { pos: Pair([10, 10]), pressure: 2000, size: 1 };
    assert!(setup.consume(heavy).is_none());
    let light = MouseMove { pos: Pair([10, 10]), pressure: 500, size: 1 };
    assert_eq!(setup.consume(light).unwrap().0, [10, 10]);
}

#[test]
fn filtering_by_size() {
    let mut cfg = config([0, 0, 1920, 1080], [0, 0, 10000, 10000], false, false, false);
    cfg.size_range = [Some(5), None];
    let setup = Setup::new(&device(1920, 1080), &cfg).unwrap();
    assert!(setup.consume(MouseMove { pos: Pair([1, 1]), pressure: 0, size: 4 }).is_none());
    assert!(setup.consume(MouseMove { pos: Pair([1, 1]), pressure: 0, size: i64::MAX }).is_some());
}

#[test]
fn missing_bounds_accept_everything() {
    let cfg = config([0, 0, 1920, 1080], [0, 0, 10000, 10000], false, false, false);
    let setup = Setup::new(&device(1920, 1080), &cfg).unwrap();
    assert_eq!(setup.pressure, [i64::MIN, i64::MAX]);
    assert_eq!(setup.size, [i64::MIN, i64::MAX]);
    let ev = MouseMove { pos: Pair([1, 1]), pressure: i64::MIN, size: i64::MAX };
    assert!(setup.consume(ev).is_some());
}

#[test]
fn keep_aspect_ratio_shrinks_height_centered() {
    let cfg = config([0, 0, 1920, 1080], [0, 0, 10000, 10000], true, false, false);
    let setup = Setup::new(&device(1000, 1000), &cfg).unwrap();
    assert_eq!(setup.consume(touch(500, 500)).unwrap().0, [960, 540]);
    assert_eq!(setup.consume(touch(0, 219)).unwrap().0, [0, 0]);
    assert_eq!(setup.consume(touch(1000, 781)).unwrap().0, [1920, 1079]);
    // Above the kept band the point is clipped.
    assert_eq!(setup.consume(touch(500, 0)).unwrap().0, [960, 0]);
}

#[test]
fn keep_aspect_ratio_shrinks_width_centered() {
    let cfg = config([0, 0, 1000, 1000], [0, 0, 10000, 10000], true, false, false);
    let setup = Setup::new(&device(2000, 1000), &cfg).unwrap();
    assert_eq!(setup.consume(touch(1000, 500)).unwrap().0, [500, 500]);
    assert_eq!(setup.consume(touch(500, 0)).unwrap().0, [0, 0]);
    assert_eq!(setup.consume(touch(1500, 1000)).unwrap().0, [1000, 1000]);
}

#[test]
fn matching_aspect_ratio_is_kept() {
    let cfg = config([0, 0, 1920, 1080], [0, 0, 10000, 10000], true, false, false);
    let setup = Setup::new(&device(960, 540), &cfg).unwrap();
    assert_eq!(setup.consume(touch(480, 270)).unwrap().0, [960, 540]);
    assert_eq!(setup.consume(touch(960, 540)).unwrap().0, [1920, 1080]);
}

#[test]
fn device_orientation_is_corrected() {
    let cfg = config([0, 0, 1920, 1080], [0, 0, 10000, 10000], false, true, false);
    let setup = Setup::new(&device(1080, 1920), &cfg).unwrap();
    assert!(setup.mapping.swap);
}

#[test]
fn flat_source_is_refused() {
    let cfg = config([0, 0, 1920, 1080], [500, 500, 500, 9500], false, false, false);
    assert!(Setup::new(&device(1920, 1080), &cfg).is_none());
}

#[test]
fn flat_target_is_refused() {
    let cfg = config([0, 0, 1920, 0], [0, 0, 10000, 10000], false, false, false);
    assert!(Setup::new(&device(1920, 1080), &cfg).is_none());
}

#[test]
fn source_outside_the_screen_is_refused() {
    let cfg = config([0, 0, 1920, 1080], [0, 0, 10001, 10000], false, false, false);
    assert!(Setup::new(&device(1920, 1080), &cfg).is_none());
}

#[test]
fn empty_device_screen_is_refused() {
    let cfg = config([0, 0, 1920, 1080], [0, 0, 10000, 10000], false, false, false);
    assert!(Setup::new(&device(0, 1080), &cfg).is_none());
}

#[test]
fn default_config_for_screen() {
    let cfg = Config::default_for(Pair([1366, 768]));
    assert_eq!(cfg.target.max.0, [1366, 768]);
    assert_eq!(cfg.clip.min.0, [0, 0]);
    assert_eq!(cfg.source.min.0, [500, 500]);
    assert_eq!(cfg.source.max.0[0] as i64, NORMALIZED_ONE * 95 / 100);
    assert!(cfg.keep_aspect_ratio && cfg.correct_orientation && cfg.correct_device_orientation);
    assert!(matches!(cfg.remote, Remote::Tcp(ref h, 8517) if h == "localhost"));
}

#[test]
fn build_on_server_info() {
    let cfg = config([0, 0, 1920, 1080], [0, 0, 10000, 10000], false, false, false);
    let setup = device(1920, 1080).build(&cfg).unwrap();
    assert_eq!(setup.consume(touch(7, 9)).unwrap().0, [7, 9]);
}
