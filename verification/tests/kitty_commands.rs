use gifterm::animation::Meta;
use gifterm::ids::{image_id_from_nanos, unique_image_id};
use gifterm::kitty::{
    frame_params_bytes, gr_cmd, graphics_command_bytes, play_plan, response_ok,
    root_gap_params_bytes, start_loop_params_bytes, support_query_bytes, temp_file_command_bytes,
    transmit_params_bytes,
};

#[test]
fn gr_cmd_without_payload() {
    assert_eq!(gr_cmd("a=a,i=5,s=3,v=1,q=2", None), b"\x1b_Ga=a,i=5,s=3,v=1,q=2\x1b\\".to_vec());
}

#[test]
fn gr_cmd_with_payload() {
    assert_eq!(gr_cmd("f=24", Some("AAAA")), b"\x1b_Gf=24;AAAA\x1b\\".to_vec());
}

#[test]
fn gr_cmd_empty_params() {
    assert_eq!(gr_cmd("", None), b"\x1b_G\x1b\\".to_vec());
    assert_eq!(gr_cmd("", Some("")), b"\x1b_G;\x1b\\".to_vec());
}

#[test]
fn gr_cmd_non_ascii_bytes_pass_through() {
    assert_eq!(gr_cmd("é", None), vec![0x1b, b'_', b'G', 0xc3, 0xa9, 0x1b, b'\\']);
}

#[test]
fn graphics_command_bytes_matches_gr_cmd() {
    assert_eq!(graphics_command_bytes(b"a=q", Some(b"xy")), gr_cmd("a=q", Some("xy")));
}

#[test]
fn transmit_params_text() {
    assert_eq!(transmit_params_bytes(1001, 640, 480), b"a=T,i=1001,f=32,s=640,v=480,q=2".to_vec());
}

#[test]
fn frame_params_text() {
    assert_eq!(frame_params_bytes(7, 400, 300, 80), b"a=f,i=7,f=32,s=400,v=300,z=80,q=2".to_vec());
}

#[test]
fn frame_params_zero_and_max() {
    assert_eq!(
        frame_params_bytes(u32::MAX, 0, 1, 20),
        b"a=f,i=4294967295,f=32,s=0,v=1,z=20,q=2".to_vec()
    );
}

#[test]
fn root_gap_and_loop_params() {
    assert_eq!(root_gap_params_bytes(42, 100), b"a=a,i=42,r=1,z=100,q=2".to_vec());
    assert_eq!(start_loop_params_bytes(42), b"a=a,i=42,s=3,v=1,q=2".to_vec());
}

#[test]
fn temp_file_command_encodes_path() {
    let cmd = temp_file_command_bytes(b"a=T,i=1,f=32,s=2,v=2,q=2", b"/tmp/gifterm_Ab12");
    assert_eq!(
        cmd,
        b"\x1b_Ga=T,i=1,f=32,s=2,v=2,q=2,t=t;L3RtcC9naWZ0ZXJtX0FiMTI=\x1b\\".to_vec()
    );
}

#[test]
fn temp_file_command_short_path() {
    let cmd = temp_file_command_bytes(b"a=f", b"/tmp/x");
    assert_eq!(cmd, b"\x1b_Ga=f,t=t;L3RtcC94\x1b\\".to_vec());
}

#[test]
fn support_query_is_the_probe_sequence() {
    assert_eq!(support_query_bytes(), b"\x1b_Gi=31,s=1,v=1,a=q,t=d,f=24;AAAA\x1b\\".to_vec());
}

#[test]
fn response_ok_cases() {
    assert!(response_ok(b"\x1b_Gi=31;OK\x1b\\"));
    assert!(response_ok(b"OK"));
    assert!(!response_ok(b"\x1b_Gi=31;ENOENT:file not found\x1b\\"));
    assert!(!response_ok(b""));
    assert!(!response_ok(b"O"));
    assert!(!response_ok(b"O\xffK"));
    assert!(!response_ok(b"ok"));
}

fn meta(durations: Vec<u32>) -> Meta {
    Meta { width: 400, height: 300, n_frames: durations.len(), durations, source: "a.gif".to_string() }
}

#[test]
fn play_plan_pairs_frames_with_durations() {
    let m = meta(vec![100, 50, 70]);
    let p = play_plan(&m, 3, 9);
    assert_eq!(p.frame_params.len(), 3);
    assert_eq!(p.frame_params[0], b"a=T,i=9,f=32,s=400,v=300,q=2".to_vec());
    assert_eq!(p.frame_params[1], b"a=f,i=9,f=32,s=400,v=300,z=50,q=2".to_vec());
    assert_eq!(p.frame_params[2], b"a=f,i=9,f=32,s=400,v=300,z=70,q=2".to_vec());
    assert_eq!(p.root_gap, b"\x1b_Ga=a,i=9,r=1,z=100,q=2\x1b\\".to_vec());
    assert_eq!(p.start_loop, b"\x1b_Ga=a,i=9,s=3,v=1,q=2\x1b\\".to_vec());
}

#[test]
fn play_plan_stops_at_shorter_list() {
    let m = meta(vec![100, 50]);
    assert_eq!(play_plan(&m, 5, 1).frame_params.len(), 2);
    let m = meta(vec![100, 50, 60, 70]);
    assert_eq!(play_plan(&m, 2, 1).frame_params.len(), 2);
    let m = meta(vec![30]);
    assert_eq!(play_plan(&m, 1, 1).frame_params.len(), 1);
}

#[test]
fn image_ids_from_nanos() {
    assert_eq!(image_id_from_nanos(0), 1);
    assert_eq!(image_id_from_nanos(999_999_999), 1_000_000_000);
    assert_eq!(image_id_from_nanos(0xFFFF_FFFD), 0xFFFF_FFFE);
    assert_eq!(image_id_from_nanos(0xFFFF_FFFE), 1);
    assert_ne!(image_id_from_nanos(5), image_id_from_nanos(6));
}

#[test]
fn unique_image_id_in_range() {
    let id = unique_image_id().expect("clock after the Unix epoch");
    assert!(id >= 1 && id <= 1_000_000_000);
}

#[test]
fn commands_determine_params_and_payload() {
    let pairs: [(&str, Option<&str>); 5] =
        [("a=T", None), ("a=T", Some("")), ("a=T,i=1", None), ("a", Some("T")), ("a=T", Some("x;y"))];
    for (i, a) in pairs.iter().enumerate() {
        for (j, b) in pairs.iter().enumerate() {
            assert_eq!(gr_cmd(a.0, a.1) == gr_cmd(b.0, b.1), i == j);
        }
    }
}
