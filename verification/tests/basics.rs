//! Languages, paths, processes, colours and numbers.

use ccsessions_core::face::palette::{
    accent, face_fill, face_opacity, ink, parse_hex, to_hex, Hex, Paint, Rgb,
};
use ccsessions_core::lang::{env_tag, from_tag, l, Lang};
use ccsessions_core::num::{Num, HALF_BITS, ONE_BITS, TWENTY_TWO_BITS, TWO_BITS};
use ccsessions_core::face::validate::NOTCH_RIGHT_BUDGET_BITS;
use ccsessions_core::process::{
    in_process_table, is_alive, is_zombie, owner_pid, SignalReply, StatusReply,
};
use ccsessions_core::session::SessionState;
use ccsessions_core::text::{decimal_text, is_control, is_white, split_lines, split_words, trim};
use ccsessions_core::{
    config_path, epoch_ms, faces_dir, faces_dir_with, join_path, now_ms, sessions_dir, state_dir, temp_file_name,
};

#[test]
fn a_pair_answers_in_the_language_it_is_asked_for() {
    let p = l("配置", "Placement");
    assert_eq!(p.get(Lang::Ja), "配置");
    assert_eq!(p.get(Lang::En), "Placement");
}

#[test]
fn japanese_is_recognised_in_every_shape_the_platform_hands_us() {
    for tag in [
        "ja",
        "ja-JP",
        "ja_JP.UTF-8",
        "ja,en-US;q=0.9",
        " ja-JP ",
        "JA",
    ] {
        assert_eq!(
            from_tag(tag),
            Lang::Ja,
            "{tag:?} should resolve to Japanese"
        );
    }
}

#[test]
fn anything_we_cannot_read_as_japanese_falls_back_to_english() {
    for tag in [
        "en",
        "en-US",
        "en_US.UTF-8",
        "en-US,ja;q=0.9",
        "C",
        "POSIX",
        "fr-FR",
        "",
        "   ",
    ] {
        assert_eq!(from_tag(tag), Lang::En, "{tag:?} should resolve to English");
    }
}

#[test]
fn only_the_first_tag_decides() {
    assert_eq!(from_tag("en-GB,ja;q=0.8,fr;q=0.5"), Lang::En);
    assert_eq!(from_tag("ja-JP,en;q=0.8"), Lang::Ja);
}

#[test]
fn now_ms_is_monotonically_reasonable() {
    let ms = now_ms();
    assert!(
        ms > 1_700_000_000_000,
        "now_ms should be a plausible 2023+ epoch ms"
    );
}

#[test]
fn special_pids_are_treated_as_unknown_and_kept() {
    assert!(is_alive(0, |_| SignalReply::NoSuchProcess, |_| StatusReply::NoSuchProcess));
    assert!(is_alive(1, |_| SignalReply::NoSuchProcess, |_| StatusReply::NoSuchProcess));
}

#[test]
fn only_idle_and_done_are_dimmed() {
    for s in SessionState::ORDER {
        let o = face_opacity(s) as f32 / 100.0;
        match s {
            SessionState::Idle => assert_eq!(o, 0.55),
            SessionState::Done => assert_eq!(o, 0.90),
            _ => assert_eq!(o, 1.0),
        }
    }
}

#[test]
fn a_hex_colour_round_trips() {
    for s in ["#000000", "#ffffff", "#7f3ac2", "#0b0912"] {
        assert_eq!(to_hex(parse_hex(s).unwrap()), s);
    }
}

#[test]
fn upper_case_padding_and_the_short_form_are_accepted() {
    assert_eq!(parse_hex("#FF0000"), parse_hex("#ff0000"));
    assert_eq!(parse_hex("  #ff0000  "), parse_hex("#ff0000"));
    assert_eq!(parse_hex("#f00"), parse_hex("#ff0000"));
    assert_eq!(parse_hex("#abc"), parse_hex("#aabbcc"));
}

#[test]
fn a_malformed_colour_is_rejected() {
    for s in ["", "#", "auto", "ff0000", "#gggggg", "#12345", "#1234567"] {
        assert_eq!(parse_hex(s), None, "{s:?} を色として受けてはいけない");
    }
}

fn home() -> String {
    "/home/k".to_string()
}

#[test]
fn directories_come_from_the_environment_or_the_home() {
    let set = || Some("/x".to_string());
    assert_eq!(state_dir(set(), home), "/x");
    assert_eq!(state_dir(None, home), "/home/k/.local/state/ccsessions");
    assert_eq!(sessions_dir(set(), home), "/x/sessions");
    assert_eq!(sessions_dir(None, home), "/home/k/.local/state/ccsessions/sessions");
    assert_eq!(config_path(Some("/c.toml".into()), home), "/c.toml");
    assert_eq!(config_path(None, home), "/home/k/.config/ccsessions/config.toml");
}

#[test]
fn faces_are_beside_the_settings() {
    assert_eq!(faces_dir("/a/b/config.toml", home), "/a/b/faces");
    assert_eq!(faces_dir("config.toml", home), "faces");
    assert_eq!(faces_dir("/", home), "/home/k/.config/ccsessions/faces");
    assert_eq!(faces_dir("/a/config.toml", || panic!("home was asked for")), "/a/faces");
    assert_eq!(faces_dir_with("/a/config.toml", "/home/k"), "/a/faces");
    assert_eq!(faces_dir_with("/", "/home/k"), "/home/k/.config/ccsessions/faces");
    assert_eq!(join_path("/a/", "b"), "/a/b");
    assert_eq!(join_path("", "b"), "b");
}

#[test]
fn temporary_files_are_hidden_and_told_apart() {
    assert_eq!(temp_file_name("a.json", 12, 3), ".a.json.12.3.tmp");
    assert_eq!(
        temp_file_name("a", u32::MAX, u64::MAX),
        ".a.4294967295.18446744073709551615.tmp"
    );
}

#[test]
fn a_time_before_the_epoch_is_zero() {
    assert_eq!(epoch_ms(None), 0);
    assert_eq!(epoch_ms(Some(7)), 7);
    assert_eq!(epoch_ms(Some(u128::from(u64::MAX) + 3)), 2);
}

#[test]
fn the_first_variable_that_is_set_names_the_language() {
    let s = |t: &str| Some(t.to_string());
    assert_eq!(env_tag(s("a"), s("b"), s("c")), s("a"));
    assert_eq!(env_tag(s("  "), s("b"), s("c")), s("b"));
    assert_eq!(env_tag(None, None, s("c")), s("c"));
    assert_eq!(env_tag(None, s(""), None), None);
    assert_eq!(Lang::Ja.as_str(), "ja");
    assert_eq!(from_tag(Lang::Ja.as_str()), Lang::Ja);
    assert_eq!(from_tag(Lang::En.as_str()), Lang::En);
    assert_eq!(from_tag("jav"), Lang::En);
}

#[test]
fn a_process_is_dead_only_if_that_is_known() {
    let alive = |s: SignalReply, z: StatusReply| is_alive(42, |_| s, |_| z);
    let zombie = StatusReply::Read { zombie: true };
    let well = StatusReply::Read { zombie: false };
    assert!(alive(SignalReply::Deliverable, well));
    assert!(alive(SignalReply::Refused, StatusReply::Unknown));
    assert!(!alive(SignalReply::Deliverable, zombie));
    assert!(!alive(SignalReply::Deliverable, StatusReply::NoSuchProcess));
    assert!(!alive(SignalReply::NoSuchProcess, well));
    assert!(in_process_table(SignalReply::Refused));
    assert!(!is_zombie(StatusReply::Unknown));
    assert_eq!(owner_pid(1), None);
    assert_eq!(owner_pid(2), Some(2));
}

#[test]
fn colours_are_rounded_to_the_nearest_step() {
    for n in 0..=10_000u32 {
        let paint = Paint::Default(Rgb { r: n, g: 0, b: 0 });
        let want = (f64::from(n) / 10_000.0 * 255.0).round() as u8;
        assert_eq!(paint.hex().r, want, "{n}");
    }
    let over = Paint::Default(Rgb {
        r: 20_000,
        g: u32::MAX,
        b: 0,
    });
    assert_eq!(to_hex(over.hex()), "#ffff00");
    assert_eq!(to_hex(Paint::Default(ink()).hex()), "#0b0912");
    let own = Hex { r: 1, g: 2, b: 255 };
    assert_eq!(to_hex(Paint::Own(own).hex()), "#0102ff");
}

#[test]
fn each_state_has_its_colours() {
    assert_eq!(
        to_hex(Paint::Default(accent(SessionState::Working)).hex()),
        "#00e1e2"
    );
    assert_eq!(
        to_hex(Paint::Default(face_fill(SessionState::Error)).hex()),
        "#2c1b34"
    );
}

#[test]
fn numbers_are_ordered_as_floating_point_is() {
    let all = [
        f64::NEG_INFINITY,
        f64::MIN,
        -1.5,
        -f64::MIN_POSITIVE,
        -5e-324,
        -0.0,
        0.0,
        5e-324,
        0.25,
        1.0,
        22.0,
        f64::MAX,
        f64::INFINITY,
        f64::NAN,
        -f64::NAN,
    ];
    for a in all {
        let n = Num::new(a.to_bits());
        assert_eq!(n.is_finite(), a.is_finite(), "{a}");
        assert_eq!(n.is_nan(), a.is_nan(), "{a}");
        for b in all {
            assert_eq!(n.is_less(Num::new(b.to_bits())), a < b, "{a} {b}");
        }
    }
    for x in [f64::INFINITY, f64::NEG_INFINITY, f64::NAN] {
        assert_eq!(Num::new(x.to_bits()).special(), format!("{x}"));
    }
}

#[test]
fn named_bits_are_those_of_their_numbers() {
    assert_eq!(HALF_BITS, 0.5f64.to_bits());
    assert_eq!(ONE_BITS, 1.0f64.to_bits());
    assert_eq!(TWO_BITS, 2.0f64.to_bits());
    assert_eq!(TWENTY_TWO_BITS, 22.0f64.to_bits());
    assert_eq!(NOTCH_RIGHT_BUDGET_BITS, 217.0f64.to_bits());
}

#[test]
fn characters_are_classed_as_everywhere() {
    for c in '\0'..=char::MAX {
        assert_eq!(is_white(c), c.is_whitespace(), "{c:?}");
        assert_eq!(is_control(c), c.is_control(), "{c:?}");
    }
}

#[test]
fn text_is_taken_apart_as_everywhere() {
    for s in ["", "a", " a b ", "a\r\nb\n\nc", "\n", "a\r", "\u{3000}x\u{a0}", "x\n\r\n"] {
        let lines: Vec<String> = split_lines(s).iter().map(|l| l.iter().collect()).collect();
        assert_eq!(lines, s.lines().collect::<Vec<_>>(), "{s:?}");
        let words: Vec<String> = split_words(s, false).iter().map(|w| w.iter().collect()).collect();
        assert_eq!(words, s.split_whitespace().collect::<Vec<_>>(), "{s:?}");
        assert_eq!(trim(s), s.trim(), "{s:?}");
    }
    for n in [0, 9, 10, 99, 100, u64::MAX] {
        assert_eq!(decimal_text(n), n.to_string());
    }
}
