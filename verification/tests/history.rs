use linkview::cli::{Cli, Commands};
use linkview::color::Color;
use linkview::entry::{bytes_to_decimal_list, bytes_to_hex_string, entries_for, DataOut, Entry};
use linkview::history::TextView;
use linkview::scroll::ScrollState;
use linkview::timestamp::Timestamp;

fn at(second: u32) -> Timestamp {
    Timestamp::new(2024, 1, 2, 3, 4, second).unwrap()
}

fn texts(view: &TextView) -> Vec<String> {
    let mut out = vec![];
    for i in 0..view.len() {
        out.push(view.entry(i).text.clone());
    }
    out
}

fn filled(capacity: usize, count: usize) -> TextView {
    let mut view = TextView::new(capacity);
    for i in 0..count {
        view.add_data_out(DataOut::ConfirmData(at(0), format!("line {}", i)));
    }
    view
}

#[test]
fn new_history_is_empty_and_follows() {
    let view = TextView::new(7);
    assert_eq!(view.len(), 0);
    assert_eq!(view.capacity(), 7);
    assert_eq!(
        view.scroll(),
        ScrollState {
            vertical_offset: 0,
            horizontal_offset: 0,
            auto_follow: true,
            viewport_height: u16::MAX
        }
    );
}

#[test]
fn sixth_entry_evicts_the_first() {
    let mut view = TextView::new(5);
    for text in ["a", "b", "c", "d", "e"] {
        view.add_data_out(DataOut::ConfirmData(at(1), text.to_string()));
    }
    assert_eq!(texts(&view), vec!["a", "b", "c", "d", "e"]);
    view.add_data_out(DataOut::FailData(at(2), "x".to_string()));
    assert_eq!(view.len(), 5);
    assert_eq!(texts(&view), vec!["b", "c", "d", "e", "Cannot send \"x\""]);
    let last = view.entry(4);
    assert_eq!(last.foreground, Color::White);
    assert_eq!(last.background, Color::LightRed);
    assert_eq!(last.timestamp, at(2));
}

#[test]
fn log_never_exceeds_its_capacity() {
    let mut view = TextView::new(3);
    for i in 0..10 {
        view.add_data_out(DataOut::Data(at(0), format!("\x1B[31mr{}\x1B[32mg{}", i, i)));
        assert!(view.len() <= 3);
    }
    assert_eq!(texts(&view), vec!["g8", "r9", "g9"]);
}

#[test]
fn log_keeps_the_newest_in_order() {
    let view = filled(4, 4 + 3);
    assert_eq!(texts(&view), vec!["line 3", "line 4", "line 5", "line 6"]);
}

#[test]
fn one_event_with_more_segments_than_capacity() {
    let mut view = TextView::new(2);
    view.add_data_out(DataOut::Data(at(0), "a\x1B[31mb\x1B[32mc\x1B[33md".to_string()));
    assert_eq!(texts(&view), vec!["c", "d"]);
    assert_eq!(view.entry(0).foreground, Color::Green);
    assert_eq!(view.entry(1).foreground, Color::Yellow);
}

#[test]
fn capacity_zero_keeps_nothing() {
    let mut view = TextView::new(0);
    view.add_data_out(DataOut::ConfirmData(at(0), "a".to_string()));
    assert_eq!(view.len(), 0);
}

#[test]
fn raw_data_gives_one_entry_per_segment() {
    let entries = entries_for(DataOut::Data(at(9), "\x1B[35mfoo\x1B[0;36mbar".to_string()));
    assert_eq!(entries.len(), 2);
    assert_eq!(entries[0].text, "foo");
    assert_eq!(entries[0].foreground, Color::Magenta);
    assert_eq!(entries[0].background, Color::Reset);
    assert_eq!(entries[0].timestamp, at(9));
    assert_eq!(entries[1].text, "bar");
    assert_eq!(entries[1].foreground, Color::Cyan);
    assert_eq!(entries[1].background, Color::Reset);
    assert!(entries_for(DataOut::Data(at(9), String::new())).is_empty());
}

#[test]
fn event_kinds_have_their_text_and_colours() {
    let one = |event: DataOut| -> (String, Color, Color) {
        let mut entries = entries_for(event);
        assert_eq!(entries.len(), 1);
        let e = entries.remove(0);
        (e.text, e.foreground, e.background)
    };
    assert_eq!(
        one(DataOut::ConfirmData(at(0), "hello".to_string())),
        ("hello".to_string(), Color::Black, Color::LightCyan)
    );
    assert_eq!(
        one(DataOut::ConfirmCommand(at(0), "reset".to_string(), "now".to_string())),
        ("</reset> now".to_string(), Color::Black, Color::LightGreen)
    );
    assert_eq!(
        one(DataOut::ConfirmHexString(at(0), vec![0x0a, 0xff, 0x00])),
        ("<$0AFF00> [10, 255, 0]".to_string(), Color::Black, Color::Yellow)
    );
    assert_eq!(
        one(DataOut::FailData(at(0), "hello".to_string())),
        ("Cannot send \"hello\"".to_string(), Color::White, Color::LightRed)
    );
    assert_eq!(
        one(DataOut::FailCommand(at(0), "reset".to_string(), "now".to_string())),
        ("Cannot send </reset>".to_string(), Color::White, Color::LightRed)
    );
    assert_eq!(
        one(DataOut::FailHexString(at(0), vec![0xde, 0xad])),
        ("Cannot send <$DEAD>".to_string(), Color::White, Color::LightRed)
    );
}

#[test]
fn entry_builders() {
    let e = Entry::if_data(at(0), "x".to_string(), Color::Blue);
    assert_eq!((e.text.as_str(), e.foreground, e.background), ("x", Color::Blue, Color::Reset));
    let e = Entry::user_hex_string(at(0), vec![]);
    assert_eq!(e.text, "<$> []");
    let e = Entry::fail_command(at(0), "go".to_string());
    assert_eq!(e.text, "Cannot send </go>");
    let copy = e.duplicate();
    assert_eq!(copy.text, e.text);
    assert_eq!(copy.timestamp, e.timestamp);
    assert_eq!(Entry::user_data(at(0), "t".to_string()).background, Color::LightCyan);
    assert_eq!(Entry::user_command(at(0), "c".to_string(), "t".to_string()).text, "</c> t");
    assert_eq!(Entry::fail_data(at(0), "t".to_string()).text, "Cannot send \"t\"");
    assert_eq!(Entry::fail_hex_string(at(0), vec![1]).text, "Cannot send <$01>");
}

#[test]
fn bytes_in_hex_and_in_decimal() {
    assert_eq!(bytes_to_hex_string(&[]), "");
    assert_eq!(bytes_to_hex_string(&[0x00, 0x9f, 0xab]), "009FAB");
    assert_eq!(bytes_to_decimal_list(&[]), "[]");
    assert_eq!(bytes_to_decimal_list(&[7]), "[7]");
    assert_eq!(bytes_to_decimal_list(&[0, 10, 200]), "[0, 10, 200]");
    assert_eq!(bytes_to_decimal_list(&[1, 2]), format!("{:?}", [1u8, 2u8]));
}

#[test]
fn timestamp_label_has_the_fixed_format() {
    assert_eq!(at(5).format(), "[02/01/2024 03:04:05] ");
    let late = Timestamp::new(1999, 12, 31, 23, 59, 59).unwrap();
    assert_eq!(late.format(), "[31/12/1999 23:59:59] ");
    let early = Timestamp::new(33, 2, 1, 0, 0, 0).unwrap();
    assert_eq!(early.format(), "[01/02/0033 00:00:00] ");
}

#[test]
fn timestamp_fields_are_checked() {
    assert!(Timestamp::new(2024, 2, 29, 0, 0, 0).is_some());
    assert!(Timestamp::new(2023, 2, 29, 0, 0, 0).is_none());
    assert!(Timestamp::new(1900, 2, 29, 0, 0, 0).is_none());
    assert!(Timestamp::new(2000, 2, 29, 0, 0, 0).is_some());
    assert!(Timestamp::new(2024, 4, 31, 0, 0, 0).is_none());
    assert!(Timestamp::new(2024, 13, 1, 0, 0, 0).is_none());
    assert!(Timestamp::new(2024, 0, 1, 0, 0, 0).is_none());
    assert!(Timestamp::new(2024, 1, 0, 0, 0, 0).is_none());
    assert!(Timestamp::new(2024, 1, 1, 24, 0, 0).is_none());
    assert!(Timestamp::new(2024, 1, 1, 0, 60, 0).is_none());
    assert!(Timestamp::new(2024, 1, 1, 0, 0, 60).is_none());
    assert!(Timestamp::new(-1, 1, 1, 0, 0, 0).is_none());
    assert!(Timestamp::new(10000, 1, 1, 0, 0, 0).is_none());
    assert_eq!(
        Timestamp::new(0, 1, 1, 0, 0, 0),
        Some(Timestamp { year: 0, month: 1, day: 1, hour: 0, minute: 0, second: 0 })
    );
}

#[test]
fn following_view_shows_the_newest_at_the_bottom() {
    let mut view = filled(100, 30);
    view.set_frame_height(15);
    view.add_data_out(DataOut::ConfirmData(at(0), "newest".to_string()));
    assert!(view.scroll().auto_follow);
    assert_eq!(view.max_main_axis(), 21);
    assert_eq!(view.scroll().vertical_offset, 21);
    let panel = view.draw();
    assert!(panel.following);
    assert_eq!(panel.rows.len(), 10);
    assert_eq!(panel.rows[9].runs, vec![("newest".to_string(), Color::Black)]);
}

#[test]
fn scrolling_up_stops_at_the_top() {
    let mut view = filled(100, 30);
    view.set_frame_height(15);
    assert_eq!(view.scroll().vertical_offset, 20);
    view.up_scroll();
    assert_eq!(view.scroll().vertical_offset, 17);
    assert!(!view.scroll().auto_follow);
    for _ in 0..6 {
        view.up_scroll();
    }
    assert_eq!(view.scroll().vertical_offset, 0);
    view.up_scroll();
    assert_eq!(view.scroll().vertical_offset, 0);
    assert!(!view.scroll().auto_follow);
}

#[test]
fn scrolling_down_to_the_bottom_follows_again() {
    let mut view = filled(100, 30);
    view.set_frame_height(15);
    for _ in 0..3 {
        view.up_scroll();
    }
    assert_eq!(view.scroll().vertical_offset, 11);
    view.down_scroll();
    assert_eq!(view.scroll().vertical_offset, 14);
    assert!(!view.scroll().auto_follow);
    view.down_scroll();
    view.down_scroll();
    assert_eq!(view.scroll().vertical_offset, 20);
    assert!(view.scroll().auto_follow);
    view.down_scroll();
    assert_eq!(view.scroll().vertical_offset, 20);
}

#[test]
fn manual_view_stays_where_it_is() {
    let mut view = filled(100, 30);
    view.set_frame_height(15);
    view.up_scroll();
    view.add_data_out(DataOut::ConfirmData(at(0), "more".to_string()));
    assert_eq!(view.scroll().vertical_offset, 17);
    assert!(!view.scroll().auto_follow);
    view.update_scroll();
    assert_eq!(view.scroll().vertical_offset, 17);
    view.set_frame_height(25);
    assert_eq!(view.scroll().vertical_offset, 11);
    assert!(!view.scroll().auto_follow);
}

#[test]
fn scrolling_up_with_nothing_above_keeps_following() {
    let mut view = filled(100, 3);
    view.set_frame_height(15);
    view.up_scroll();
    assert!(view.scroll().auto_follow);
    assert_eq!(view.scroll().vertical_offset, 0);
}

#[test]
fn small_viewport_has_no_content_rows() {
    let mut view = filled(100, 3);
    view.set_frame_height(2);
    assert_eq!(view.max_main_axis(), 3);
    assert_eq!(view.draw().rows.len(), 0);
}

#[test]
fn horizontal_scroll_steps_by_three() {
    let mut view = filled(10, 1);
    view.left_scroll();
    assert_eq!(view.scroll().horizontal_offset, 0);
    view.right_scroll();
    view.right_scroll();
    assert_eq!(view.scroll().horizontal_offset, 6);
    view.left_scroll();
    assert_eq!(view.scroll().horizontal_offset, 3);
    let panel = view.draw();
    assert_eq!(panel.rows[0].runs, vec![("e 0".to_string(), Color::Black)]);
    for _ in 0..4 {
        view.right_scroll();
    }
    assert!(view.draw().rows[0].runs.is_empty());
    let mut state = view.scroll();
    state.horizontal_offset = usize::MAX - 1;
    state.scroll_right();
    assert_eq!(state.horizontal_offset, usize::MAX);
}

#[test]
fn clear_empties_and_follows() {
    let mut view = filled(100, 30);
    view.set_frame_height(15);
    view.up_scroll();
    view.right_scroll();
    view.clear();
    assert_eq!(view.len(), 0);
    assert_eq!(view.capacity(), 100);
    assert_eq!(
        view.scroll(),
        ScrollState {
            vertical_offset: 0,
            horizontal_offset: 0,
            auto_follow: true,
            viewport_height: 15
        }
    );
}

#[test]
fn panel_title_counts_the_entries() {
    assert_eq!(TextView::new(5).draw().title, "[000] Text UTF-8");
    assert_eq!(filled(50, 12).draw().title, "[012] Text UTF-8");
    assert_eq!(filled(2000, 1234).draw().title, "[1234] Text UTF-8");
}

#[test]
fn rows_carry_timestamp_runs_and_colours() {
    let mut view = TextView::new(10);
    view.add_data_out(DataOut::Data(at(7), "\x1B[35mab\x01\ncd".to_string()));
    view.add_data_out(DataOut::FailData(at(8), "x".to_string()));
    let panel = view.draw();
    assert_eq!(panel.rows.len(), 2);
    let raw = &panel.rows[0];
    assert_eq!(raw.timestamp, "[02/01/2024 03:04:07] ");
    assert_eq!(raw.timestamp_color, Color::Magenta);
    assert_eq!(raw.background, Color::Reset);
    assert_eq!(
        raw.runs,
        vec![
            ("ab".to_string(), Color::Magenta),
            ("\\x01\\n".to_string(), Color::Cyan),
            ("cd".to_string(), Color::Magenta)
        ]
    );
    let fail = &panel.rows[1];
    assert_eq!(fail.timestamp, "[02/01/2024 03:04:08] ");
    assert_eq!(fail.timestamp_color, Color::LightRed);
    assert_eq!(fail.background, Color::LightRed);
    assert_eq!(fail.runs, vec![("Cannot send \"x\"".to_string(), Color::White)]);
    assert_eq!(view.len(), 2);
}

#[test]
fn line_feed_in_text_stays_in_one_entry() {
    let mut view = TextView::new(10);
    view.add_data_out(DataOut::ConfirmData(at(0), "a\nb".to_string()));
    assert_eq!(view.len(), 1);
    let row = TextView::draw_row(view.entry(0), 0);
    assert_eq!(
        row.runs,
        vec![
            ("a".to_string(), Color::Black),
            ("\\n".to_string(), Color::LightMagenta),
            ("b".to_string(), Color::Black)
        ]
    );
}

#[test]
fn scroll_state_steps() {
    let mut state = ScrollState::new();
    state.resize(10, 20);
    assert_eq!(state.max_main_axis(20), 15);
    assert_eq!(state.vertical_offset, 15);
    state.scroll_up(20);
    assert_eq!((state.vertical_offset, state.auto_follow), (12, false));
    state.scroll_down(20);
    assert_eq!((state.vertical_offset, state.auto_follow), (15, true));
    state.scroll_left();
    assert_eq!(state.horizontal_offset, 0);
    state.auto_follow = false;
    state.vertical_offset = 40;
    state.settle(20);
    assert_eq!(state.vertical_offset, 15);
}

#[test]
fn exec_accepts_both_commands() {
    let serial = Cli { command: Commands::Serial { port: "/dev/ttyUSB0".to_string(), baudrate: 115200 } };
    serial.exec();
    let ble = Cli { command: Commands::Ble { name_device: "probe".to_string(), mtu: 23 } };
    ble.exec();
    assert!(matches!(ble.command, Commands::Ble { mtu: 23, .. }));
}
