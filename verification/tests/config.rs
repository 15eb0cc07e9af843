//! The settings.

use ccsessions_core::config::{
    builtin_default, design_choices, field, field_value, fields, ignore_rules, load, parse_bool,
    parse_coord, parse_int, render_toml, set_field, BarAlign, CompactMode, Config, ConfigRead,
    CoordText, FieldKind, Language, Placement, RawConfig,
};
use ccsessions_core::face::registry::{builtin_ids, ReadFace, Registry};
use ccsessions_core::face::spec::{
    BodySize, BySize, CornerSpec, EyeShape, EyesSpec, FaceSpec, OutlineSpec, Source, StateColors,
};
use ccsessions_core::lang::Lang;
use ccsessions_core::num::Num;
use ccsessions_core::session::{Session, SessionState};

fn num(x: f64) -> Num {
    Num::new(x.to_bits())
}

fn face(id: &str) -> FaceSpec {
    let plain = StateColors {
        accent: None,
        fill: None,
        eye: None,
    };
    let body = |w: f64, h: f64| BodySize {
        w: num(w),
        h: num(h),
    };
    FaceSpec {
        id: id.to_string(),
        label: id.to_string(),
        label_en: None,
        author: None,
        size: BySize {
            bar: body(22.0, 20.0),
            dock: body(36.0, 34.0),
        },
        outline: OutlineSpec::Corners(CornerSpec::Capsule),
        eyes: EyesSpec {
            shape: EyeShape::Rounded,
            v: num(0.5),
            gap: BySize {
                bar: num(3.0),
                dock: num(5.0),
            },
            size: BySize {
                bar: [num(3.0), num(4.0)],
                dock: [num(4.0), num(6.0)],
            },
            radius: num(2.0),
            polygon: None,
            states: [None; 6],
        },
        details: vec![],
        colors: [plain; 6],
        source: Source::Builtin,
    }
}

fn faces() -> Registry {
    let read = builtin_ids()
        .iter()
        .map(|id| ReadFace {
            label: id.to_string(),
            face: Ok(face(id)),
        })
        .collect();
    Registry::builtin(read)
}

/// The settings that a file with this text gives.
fn load_text(text: &str) -> Result<Config, String> {
    let table: toml::Table = match toml::from_str(text) {
        Ok(t) => t,
        Err(e) => {
            return load(&ConfigRead::Malformed {
                error: e.to_string(),
            })
        }
    };
    let mut raw = RawConfig::default();
    for (key, value) in &table {
        let string = || value.as_str().unwrap().to_string();
        let flag = || value.as_bool().unwrap();
        let int = || value.as_integer().unwrap() as u64;
        let coord = || {
            let x = value.as_float().unwrap_or_else(|| value.as_integer().unwrap() as f64);
            Some(num(x))
        };
        match key.as_str() {
            "placement" => raw.placement = string(),
            "design" => raw.design = string(),
            "reduce_motion" => raw.reduce_motion = flag(),
            "show_glyphs" => raw.show_glyphs = flag(),
            "bar_align" => raw.bar_align = string(),
            "compact_flock" => raw.compact_flock = string(),
            "dock_x" => raw.dock_x = coord(),
            "dock_y" => raw.dock_y = coord(),
            "done_ttl_secs" => raw.done_ttl_secs = int(),
            "session_ttl_secs" => raw.session_ttl_secs = int(),
            "max_sessions" => raw.max_sessions = int() as usize,
            "detect_errors" => raw.detect_errors = flag(),
            "language" => raw.language = string(),
            "ignore" => {
                let rules = value.as_array().unwrap().iter();
                raw.ignore = rules.map(|r| r.as_str().unwrap().to_string()).collect();
            }
            _ => {}
        }
    }
    load(&ConfigRead::Parsed(raw))
}

fn float(n: Num) -> f64 {
    f64::from_bits(n.bits)
}

/// The text of a file with these settings.
fn rendered(c: &Config) -> String {
    let text = |v: Option<Num>| v.map(|n| format!("{:?}", float(n))).unwrap_or_default();
    let coords = CoordText {
        x: text(c.dock_x),
        y: text(c.dock_y),
    };
    render_toml(c, &coords)
}

fn value_of(c: &Config, key: &str) -> Option<String> {
    let text = |v: Option<Num>| v.map(|n| format!("{}", float(n))).unwrap_or_default();
    let coords = CoordText {
        x: text(c.dock_x),
        y: text(c.dock_y),
    };
    field_value(c, key, &coords)
}

fn set(c: &mut Config, key: &str, value: &str, faces: &Registry) -> Result<(), String> {
    let number = value.trim().parse::<f64>().ok().map(num);
    set_field(c, key, value, faces, number)
}

#[test]
fn absent_file_returns_builtin_default() {
    let cfg = load(&ConfigRead::Missing).unwrap();
    assert_eq!(cfg, builtin_default());
}

#[test]
fn builtin_default_values() {
    let cfg = builtin_default();
    assert_eq!(cfg.placement, Placement::Bar);
    assert_eq!(cfg.design, "egg");
    assert!(!cfg.reduce_motion);
    assert!(cfg.show_glyphs);
    assert_eq!(cfg.bar_align, BarAlign::Auto);
    assert_eq!(cfg.compact_flock, CompactMode::Auto);
    assert_eq!(cfg.done_ttl_ms(), 180_000);
    assert_eq!(cfg.session_ttl_ms(), 28_800_000);
    assert_eq!(cfg.max_sessions, 12);
    assert!(
        !cfg.detect_errors,
        "エラー検出は StopFailure に一本化したので既定は false"
    );
}

#[test]
fn full_config_parses() {
    let p = r#"
placement = "dock"
design = "bean"
reduce_motion = true
show_glyphs = false
bar_align = "left-of-notch"
compact_flock = "always"
done_ttl_secs = 60
session_ttl_secs = 3600
max_sessions = 5
detect_errors = true
"#;
    let cfg = load_text(p).unwrap();
    assert_eq!(cfg.placement, Placement::Dock);
    assert_eq!(cfg.design, "bean");
    assert!(cfg.reduce_motion);
    assert!(!cfg.show_glyphs);
    assert_eq!(cfg.bar_align, BarAlign::LeftOfNotch);
    assert_eq!(cfg.compact_flock, CompactMode::Always);
    assert_eq!(cfg.done_ttl_ms(), 60_000);
    assert_eq!(cfg.session_ttl_ms(), 3_600_000);
    assert_eq!(cfg.max_sessions, 5);
    assert!(cfg.detect_errors);
}

#[test]
fn partial_config_fills_missing_with_defaults() {
    let p = "placement = \"dock\"\n";
    let cfg = load_text(p).unwrap();
    assert_eq!(cfg.placement, Placement::Dock);
    assert_eq!(cfg.design, "egg", "unspecified design should default");
    assert_eq!(
        cfg.max_sessions, 12,
        "unspecified max_sessions should default"
    );
}

#[test]
fn unknown_placement_returns_err() {
    let p = "placement = \"floating\"\n";
    let err = load_text(p).unwrap_err();
    assert!(
        err.contains("placement"),
        "error should mention placement: {err}"
    );
}

#[test]
fn an_unknown_design_id_is_accepted_and_resolved_later() {
    let p = "design = \"my-own-face\"\n";
    let cfg = load_text(p).expect("未知の顔 id は設定のパースでは弾かない");
    assert_eq!(cfg.design, "my-own-face");
    let reg = faces();
    assert_eq!(reg.resolve(&cfg.design).id, "egg");
}

#[test]
fn a_malformed_design_id_returns_err() {
    let p = "design = \"My Face!\"\n";
    assert!(load_text(p).unwrap_err().contains("design"));
}

#[test]
fn every_builtin_design_is_listed_in_the_choices() {
    let choices = design_choices();
    for id in builtin_ids() {
        assert!(choices.contains(id), "{id} が選択肢の案内に載っていない");
        assert!(faces().get(id).is_some());
    }
}

#[test]
fn a_config_without_compact_flock_defaults_to_auto() {
    let p = "placement = \"bar\"\ndesign = \"egg\"\nmax_sessions = 12\n";
    assert_eq!(load_text(p).unwrap().compact_flock, CompactMode::Auto);
}

#[test]
fn compact_flock_round_trips_through_from_str() {
    for m in [CompactMode::Auto, CompactMode::Always, CompactMode::Never] {
        assert_eq!(CompactMode::from_str(m.as_str()), Some(m));
    }
    assert_eq!(CompactMode::from_str("shrink"), None);
}

#[test]
fn unknown_compact_flock_returns_err() {
    let p = "compact_flock = \"shrink\"\n";
    assert!(load_text(p).unwrap_err().contains("compact_flock"));
}

#[test]
fn unknown_bar_align_returns_err() {
    let p = "bar_align = \"top-left\"\n";
    assert!(load_text(p).unwrap_err().contains("bar_align"));
}

#[test]
fn malformed_toml_returns_err() {
    let p = "this is not toml [[[";
    assert!(load_text(p).is_err());
}

#[test]
fn config_save_then_load_round_trips() {
    let mut cfg = builtin_default();
    cfg.placement = Placement::Dock;
    cfg.design = "squircle".to_string();
    cfg.reduce_motion = true;
    cfg.bar_align = BarAlign::Center;
    cfg.compact_flock = CompactMode::Never;
    cfg.set_done_ttl_secs(42);
    cfg.set_session_ttl_secs(4242);
    cfg.max_sessions = 3;
    cfg.detect_errors = true;
    cfg.dock_x = Some(num(687.25));
    cfg.dock_y = Some(num(20.0));

    let loaded = load_text(&rendered(&cfg)).unwrap();
    assert_eq!(loaded, cfg);
}

#[test]
fn a_config_without_a_dock_position_has_none() {
    let p = "placement = \"dock\"\n";
    let cfg = load_text(p).unwrap();
    assert_eq!((cfg.dock_x, cfg.dock_y), (None, None));
}

#[test]
fn the_default_config_does_not_mention_a_dock_position() {
    let rendered = rendered(&builtin_default());
    assert!(!rendered.contains("dock_x"), "既定なのに位置が書かれている");
    assert!(!rendered.contains("dock_y"));
}

#[test]
fn one_dock_axis_may_be_specified_on_its_own() {
    let p = "dock_x = 500.0\n";
    let cfg = load_text(p).unwrap();
    assert_eq!(cfg.dock_x, Some(num(500.0)));
    assert_eq!(cfg.dock_y, None);
}

#[test]
fn an_integer_dock_coord_is_accepted() {
    let p = "dock_x = 500\ndock_y = 20\n";
    let cfg = load_text(p).unwrap();
    assert_eq!((cfg.dock_x, cfg.dock_y), (Some(num(500.0)), Some(num(20.0))));
}

#[test]
fn a_non_finite_dock_coord_returns_err() {
    for src in ["dock_x = nan\n", "dock_y = inf\n", "dock_x = -inf\n"] {
        let p = src;
        let err = load_text(p).unwrap_err();
        assert!(err.contains("dock_"), "理由が分からない: {err}（{src:?}）");
    }
}

#[test]
fn saved_toml_keeps_option_comments() {
    let content = rendered(&builtin_default());
    assert!(content.contains("\"bar\" | \"dock\""));
}

#[test]
fn every_key_written_to_the_toml_is_in_the_schema() {
    let mut cfg = builtin_default();
    cfg.dock_x = Some(num(1.0));
    cfg.dock_y = Some(num(2.0));
    for line in rendered(&cfg).lines() {
        let line = line.trim();
        if line.is_empty() || line.starts_with('#') {
            continue;
        }
        let key = line.split('=').next().unwrap().trim();
        assert!(
            field(key).is_some(),
            "{key} が設定のスキーマに無い（設定画面に出ない）"
        );
    }
}

#[test]
fn every_field_can_be_read_and_written() {
    let mut cfg = builtin_default();
    for f in fields() {
        let v = value_of(&cfg, f.key).unwrap_or_else(|| panic!("{} が読めない", f.key));
        set(&mut cfg, f.key, &v, &faces())
            .unwrap_or_else(|e| panic!("{} を書き戻せない: {e}", f.key));
    }
}

#[test]
fn the_current_value_of_every_field_round_trips() {
    let mut cfg = builtin_default();
    cfg.placement = Placement::Dock;
    cfg.design = "bean".into();
    cfg.reduce_motion = true;
    cfg.show_glyphs = false;
    cfg.bar_align = BarAlign::LeftOfNotch;
    cfg.compact_flock = CompactMode::Always;
    cfg.set_done_ttl_secs(42);
    cfg.set_session_ttl_secs(4242);
    cfg.max_sessions = 3;
    cfg.detect_errors = true;
    cfg.dock_x = Some(num(687.25));
    cfg.dock_y = Some(num(20.0));

    let mut back = builtin_default();
    for f in fields() {
        let v = value_of(&cfg, f.key).unwrap();
        set(&mut back, f.key, &v, &faces()).unwrap();
    }
    assert_eq!(back, cfg);
}

#[test]
fn every_declared_choice_is_accepted() {
    let mut cfg = builtin_default();
    for f in fields() {
        let FieldKind::Choice(choices) = f.kind else {
            continue;
        };
        for (value, label) in choices {
            assert!(!label.is_empty(), "{} の選択肢にラベルが無い", f.key);
            set(&mut cfg, f.key, value, &faces())
                .unwrap_or_else(|e| panic!("{}={value} が拒否された: {e}", f.key));
        }
    }
}

#[test]
fn every_builtin_face_can_be_selected() {
    let mut cfg = builtin_default();
    for id in builtin_ids() {
        set(&mut cfg, "design", id, &faces()).unwrap();
        assert_eq!(cfg.design, id);
    }
    assert!(set(&mut cfg, "design", "no-such-face", &faces()).is_err());
}

#[test]
fn an_out_of_range_integer_is_refused() {
    let mut cfg = builtin_default();
    assert!(set(&mut cfg, "max_sessions", "0", &faces()).is_err());
    assert!(set(&mut cfg, "max_sessions", "9999", &faces()).is_err());
    assert!(set(&mut cfg, "session_ttl_secs", "1", &faces()).is_err());
    assert!(set(&mut cfg, "max_sessions", "8", &faces()).is_ok());
    assert_eq!(cfg.max_sessions, 8);
}

#[test]
fn auto_clears_a_dock_coordinate() {
    let mut cfg = builtin_default();
    set(&mut cfg, "dock_x", "500.5", &faces()).unwrap();
    assert_eq!(cfg.dock_x, Some(num(500.5)));
    set(&mut cfg, "dock_x", "auto", &faces()).unwrap();
    assert_eq!(cfg.dock_x, None);
    assert_eq!(value_of(&cfg, "dock_x").as_deref(), Some("auto"));
    assert!(set(&mut cfg, "dock_y", "nan", &faces()).is_err());
}

#[test]
fn an_unknown_key_is_refused() {
    let mut cfg = builtin_default();
    assert!(set(&mut cfg, "nope", "1", &faces()).is_err());
    assert!(value_of(&cfg, "nope").is_none());
}

#[test]
fn set_done_ttl_secs_converts_to_ms() {
    let mut cfg = builtin_default();
    cfg.set_done_ttl_secs(5);
    assert_eq!(cfg.done_ttl_ms(), 5000);
}

#[test]
fn set_session_ttl_secs_converts_to_ms() {
    let mut cfg = builtin_default();
    cfg.set_session_ttl_secs(7);
    assert_eq!(cfg.session_ttl_ms(), 7000);
}

#[test]
fn a_file_that_cannot_be_read_is_an_error_with_a_reason() {
    let failed = load(&ConfigRead::Failed {
        path: "/c.toml".into(),
        error: "denied".into(),
    });
    assert_eq!(failed.unwrap_err(), "cannot read /c.toml: denied");
    let malformed = load(&ConfigRead::Malformed {
        error: "bad".into(),
    });
    assert_eq!(malformed.unwrap_err(), "config parse error: bad");
}

#[test]
fn an_empty_file_gives_the_default() {
    assert_eq!(load_text("").unwrap(), builtin_default());
}

#[test]
fn the_default_file_is_written_in_full() {
    assert_eq!(
        rendered(&builtin_default()),
        "placement = \"bar\"          # \"bar\" | \"dock\"\n\
         design = \"egg\"                # \"egg\" | \"round\" | \"squircle\" | \"bean\"\n\
         reduce_motion = false\n\
         show_glyphs = true\n\
         bar_align = \"auto\"          # \"auto\" | \"center\" | \"left-of-notch\" | \"right-of-notch\"\n\
         compact_flock = \"auto\"  # \"auto\"（入り切らなければ縮める）| \"always\" | \"never\"\n\
         done_ttl_secs = 180\n\
         session_ttl_secs = 28800\n\
         max_sessions = 12\n\
         detect_errors = false\n"
    );
}

#[test]
fn a_dragged_dock_is_written_down() {
    let mut cfg = builtin_default();
    cfg.dock_y = Some(num(20.0));
    let text = rendered(&cfg);
    assert!(text.ends_with("dock_y = 20.0\n"), "{text}");
    assert!(!text.contains("\ndock_x = "), "{text}");
}

#[test]
fn integers_are_read_as_unsigned_numbers() {
    assert_eq!(parse_int("max_sessions", " +8 "), Ok(8));
    assert_eq!(parse_int("max_sessions", "0008"), Ok(8));
    for bad in ["", "+", "-1", "1.0", "0x1", "8 8", "18446744073709551616"] {
        assert_eq!(
            parse_int("max_sessions", bad),
            Err(format!("expected an integer, got {bad:?}"))
        );
    }
    assert_eq!(
        parse_int("max_sessions", "65"),
        Err("max_sessions は 1〜64匹 の範囲にしてください（got 65）".to_string())
    );
    assert_eq!(parse_int("other", "18446744073709551615"), Ok(u64::MAX));
}

#[test]
fn flags_are_read_strictly() {
    assert_eq!(parse_bool("true"), Ok(true));
    assert_eq!(parse_bool("false"), Ok(false));
    assert_eq!(
        parse_bool("TRUE"),
        Err("expected \"true\" or \"false\", got \"TRUE\"".to_string())
    );
}

#[test]
fn places_are_finite_numbers_or_nothing() {
    assert_eq!(parse_coord(" auto ", None), Ok(None));
    assert_eq!(parse_coord("  ", None), Ok(None));
    assert_eq!(parse_coord("1.5", Some(num(1.5))), Ok(Some(num(1.5))));
    assert_eq!(
        parse_coord(" inf", Some(num(f64::INFINITY))),
        Err("expected a finite number or \"auto\", got \"inf\"（nan / inf は使えない）".to_string())
    );
    assert_eq!(
        parse_coord("x", None),
        Err("expected a number or \"auto\", got \"x\"".to_string())
    );
}

#[test]
fn a_refused_value_changes_nothing() {
    let keys_and_bad_values = [
        ("placement", "top"),
        ("design", "nobody"),
        ("reduce_motion", "yes"),
        ("bar_align", "top"),
        ("compact_flock", "x"),
        ("done_ttl_secs", "86401"),
        ("dock_x", "nan"),
        ("no_such_key", "1"),
    ];
    for (key, value) in keys_and_bad_values {
        let mut cfg = builtin_default();
        assert!(set(&mut cfg, key, value, &faces()).is_err(), "{key}");
        assert_eq!(cfg, builtin_default(), "{key}");
    }
    let mut cfg = builtin_default();
    assert_eq!(
        set(&mut cfg, "no_such_key", "1", &faces()).unwrap_err(),
        "unknown config key: \"no_such_key\""
    );
    assert_eq!(
        set(&mut cfg, "design", "nobody", &faces()).unwrap_err(),
        "invalid design: \"nobody\" (使える顔: egg, round, squircle, bean)"
    );
}

#[test]
fn a_setting_changes_alone() {
    let mut cfg = builtin_default();
    set(&mut cfg, "max_sessions", "7", &faces()).unwrap();
    for f in fields() {
        if f.key != "max_sessions" {
            assert_eq!(value_of(&cfg, f.key), value_of(&builtin_default(), f.key));
        }
    }
    assert_eq!(value_of(&cfg, "max_sessions").as_deref(), Some("7"));
}

#[test]
fn huge_durations_are_cut() {
    let mut cfg = builtin_default();
    cfg.set_done_ttl_secs(u64::MAX);
    cfg.set_session_ttl_secs(18_446_744_073_709_551);
    assert_eq!(cfg.done_ttl_ms(), u64::MAX);
    assert_eq!(cfg.session_ttl_ms(), 18_446_744_073_709_551_000);
}

#[test]
fn the_schema_has_one_row_for_each_key() {
    assert_eq!(fields().len(), 14);
    for f in fields() {
        assert_eq!(field(f.key), Some(f));
    }
    assert_eq!(field("nothing"), None);
    assert_eq!(value_of(&builtin_default(), "nothing"), None);
}

#[test]
fn names_of_placements_and_alignments_round_trip() {
    for p in [Placement::Bar, Placement::Dock] {
        assert_eq!(Placement::from_str(p.as_str()), Some(p));
    }
    for a in [
        BarAlign::Auto,
        BarAlign::Center,
        BarAlign::LeftOfNotch,
        BarAlign::RightOfNotch,
    ] {
        assert_eq!(BarAlign::from_str(a.as_str()), Some(a));
    }
}

#[test]
fn the_language_follows_the_system_unless_it_is_set() {
    let ja = Some("ja_JP.UTF-8".to_string());
    assert_eq!(Language::Auto.resolve(&ja), Lang::Ja);
    assert_eq!(Language::Auto.resolve(&None), Lang::En);
    assert_eq!(Language::En.resolve(&ja), Lang::En);
    assert_eq!(Language::Ja.resolve(&None), Lang::Ja);
    assert_eq!(load_text("language = \"ja\"\n").unwrap().language, Language::Ja);
    assert_eq!(
        load_text("language = \"fr\"\n").unwrap_err(),
        "invalid language: \"fr\" (want \"auto\" | \"ja\" | \"en\")"
    );
    let mut cfg = builtin_default();
    set(&mut cfg, "language", "en", &faces()).unwrap();
    assert!(rendered(&cfg).contains("\nlanguage = \"en\"  "), "{}", rendered(&cfg));
    assert!(set(&mut cfg, "language", "fr", &faces()).is_err());
    for l in [Language::Auto, Language::Ja, Language::En] {
        assert_eq!(Language::from_str(l.as_str()), Some(l));
    }
}

#[test]
fn rules_are_read_from_the_settings() {
    let cfg = load_text("max_sessions = 3\nignore = [\"~/work/tmp\", \"cron-jobs\", \"**/x/**\"]\n");
    let cfg = cfg.unwrap();
    assert_eq!(cfg.max_sessions, 3, "a wrong rule must not reset the other settings");
    let (rules, reasons) = ignore_rules(&cfg, "/Users/tester");
    assert_eq!(rules.raw(), vec!["~/work/tmp", "**/x/**"]);
    assert_eq!(reasons.len(), 1);
    let session = Session {
        id: "s1".into(),
        name: "tmp".into(),
        title: None,
        cwd: "/Users/tester/work/tmp/a".into(),
        state: SessionState::Working,
        since: 0,
        updated: 0,
        agents: vec![],
        main_stopped: false,
        error_kind: None,
        pid: None,
    };
    assert!(rules.matches(&session));
}

#[test]
fn rules_survive_saving_and_editing() {
    let mut cfg = builtin_default();
    set(&mut cfg, "ignore", " ~/a \n\n /b\"c\\d \r\n", &faces()).unwrap();
    assert_eq!(cfg.ignore, vec!["~/a", "/b\"c\\d"]);
    assert_eq!(load_text(&rendered(&cfg)).unwrap(), cfg);
    let text = value_of(&cfg, "ignore").unwrap();
    let mut again = builtin_default();
    set(&mut again, "ignore", &text, &faces()).unwrap();
    assert_eq!(again, cfg);
    set(&mut again, "ignore", "", &faces()).unwrap();
    assert_eq!(again, builtin_default());
}

#[test]
fn every_optional_line_comes_back() {
    for language in [Language::Auto, Language::Ja, Language::En] {
        for ignore in [vec![], vec!["~/tmp".to_string(), "/a \"b\"\\**".to_string()]] {
            for (x, y) in [(None, None), (Some(1.5), None), (None, Some(-20.0)), (Some(0.0), Some(3.25))] {
                let mut cfg = builtin_default();
                cfg.language = language;
                cfg.ignore = ignore.clone();
                cfg.dock_x = x.map(num);
                cfg.dock_y = y.map(num);
                assert_eq!(load_text(&rendered(&cfg)).unwrap(), cfg);
            }
        }
    }
}
