use vst3_host::toolbar::{beats_clock, seconds_clock, tab_buttons, Tab, TabButtons};

#[test]
fn seconds_clock_pads_to_two_digits() {
    assert_eq!(seconds_clock(0, 0), "00:00:00");
    assert_eq!(seconds_clock(75, 5), "01:15:05");
    assert_eq!(seconds_clock(6000, 99), "100:00:99");
    for (s, c) in [(3599u64, 42u8), (61, 0), (7, 7)] {
        assert_eq!(seconds_clock(s, c), format!("{:02}:{:02}:{:02}", s / 60, s % 60, c));
    }
}

#[test]
fn beats_clock_counts_from_one() {
    assert_eq!(beats_clock(0, 0, 4), "001:1");
    assert_eq!(beats_clock(11, 3, 4), "012:4");
    assert_eq!(beats_clock(1234, 2, 12), "1235:03");
    for (bar, beat, num) in [(0u32, 0u32, 99u8), (41, 9, 10), (999, 0, 3), (5, 100, 255)] {
        let digits = num.ilog10() as usize + 1;
        assert_eq!(beats_clock(bar, beat, num), format!("{:03}:{:0digits$}", bar + 1, beat + 1, digits = digits));
    }
}

#[test]
fn tab_buttons_disable_the_current_view() {
    assert_eq!(tab_buttons(Tab::Playlist, false), TabButtons { playlist: false, mixer: true, piano_roll: false });
    assert_eq!(tab_buttons(Tab::Mixer, true), TabButtons { playlist: true, mixer: false, piano_roll: true });
    assert_eq!(tab_buttons(Tab::PianoRoll, true), TabButtons { playlist: true, mixer: true, piano_roll: false });
}
