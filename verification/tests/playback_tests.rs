use term_video::playback::playback_plan;

const SETUP: &str = "\x1b[2J\x1b[H\x1b[?25l\x1b[?7l";
const HOME: &str = "\x1b[H";
const RESTORE: &str = "\x1b[?7h\x1b[?25h\x1b[H\x1b[2J";

#[test]
fn plan_wraps_each_frame_between_setup_and_restore() {
    let blobs = vec![" ;\n".to_string(), "@@\n".to_string()];
    let plan = playback_plan(&blobs, 33333);
    assert_eq!(plan.len(), 4);
    assert_eq!(plan[0].text, SETUP);
    assert_eq!(plan[0].sleep_micros, 0);
    assert_eq!(plan[1].text, format!("{}{}", HOME, " ;\n"));
    assert_eq!(plan[1].sleep_micros, 33333);
    assert_eq!(plan[2].text, format!("{}{}", HOME, "@@\n"));
    assert_eq!(plan[2].sleep_micros, 33333);
    assert_eq!(plan[3].text, RESTORE);
    assert_eq!(plan[3].sleep_micros, 0);
}

#[test]
fn plan_for_no_frames_still_restores_the_terminal() {
    let plan = playback_plan(&Vec::new(), 1000);
    assert_eq!(plan.len(), 2);
    assert_eq!(plan[0].text, SETUP);
    assert_eq!(plan[1].text, RESTORE);
    assert_eq!(plan[1].sleep_micros, 0);
}
