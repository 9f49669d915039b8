use nmeacli::{
    datetime_str, input_continues, option_str, Action, Aggregator, Config, Entry, Event, Key,
    LineFilter, RenderLoop, Telemetry, HISTORY_CAPACITY, NOT_AVAILABLE, NO_STAMP,
};

const GGA_FIRST: &str = "$GPGGA,092750.000,5330.0000,N,00630.0000,W,1,8,1.03,61.7,M,55.2,M,,*7F";
const GGA_SECOND: &str = "$GPGGA,092751.000,5345.0000,N,00630.0000,W,1,9,1.5,62.5,M,55.2,M,,*4A";
const RMC: &str = "$GPRMC,092750.000,A,5330.0000,N,00630.0000,W,0.02,31.66,280511,,,A*4A";
const GSV: &str = "$GPGSV,1,1,02,01,40,083,46,02,17,308,41*7D";
const GSA: &str = "$GPGSA,A,3,10,07,05,02,29,04,08,13,,,,,1.72,1.03,1.38*0A";

fn sentence(body: &str) -> String {
    let sum = body.bytes().fold(0u8, |c, b| c ^ b);
    format!("${}*{:02X}", body, sum)
}

fn history_texts(a: &Aggregator) -> Vec<String> {
    a.history().iter().map(|e| e.text.clone()).collect()
}

fn some(s: &str) -> Option<String> {
    Some(s.to_string())
}

#[test]
fn rejected_line_changes_nothing() {
    let mut a = Aggregator::new();
    assert!(a.ingest(GGA_FIRST));
    let before_lat = a.snapshot().latitude.clone();
    let before_len = a.history().len();
    assert!(!a.ingest("garbage"));
    assert!(!a.ingest("$GPGGA,092750.000,5330.0000,N,00630.0000,W,1,8,1.03,61.7,M,55.2,M,,*00"));
    assert!(!a.ingest(""));
    assert_eq!(a.snapshot().latitude, before_lat);
    assert_eq!(a.history().len(), before_len);
}

#[test]
fn gga_fills_its_fields_only() {
    let mut a = Aggregator::new();
    assert!(a.ingest(GGA_FIRST));
    let s = a.snapshot();
    assert_eq!(s.latitude, some("53.5"));
    assert_eq!(s.longitude, some("-6.5"));
    assert_eq!(s.altitude, some("61.7"));
    assert_eq!(s.hdop, some("1.03"));
    assert_eq!(s.fix_time, some("09:27:50"));
    assert_eq!(s.num_of_fix_satellites, Some(8));
    assert_eq!(s.fix_date, None);
    assert_eq!(s.vdop, None);
    assert_eq!(s.pdop, None);
    assert!(s.satellites.is_none());
}

#[test]
fn later_sentences_keep_unsupplied_fields() {
    let mut a = Aggregator::new();
    assert!(a.ingest(RMC));
    assert_eq!(a.snapshot().fix_date, some("2011-05-28"));
    assert!(a.ingest(GGA_SECOND));
    let s = a.snapshot();
    assert_eq!(s.fix_date, some("2011-05-28"));
    assert_eq!(s.latitude, some("53.75"));
    assert_eq!(s.fix_time, some("09:27:51"));
    assert_eq!(s.num_of_fix_satellites, Some(9));
    assert!(a.ingest(GSA));
    let s = a.snapshot();
    assert_eq!(s.pdop, some("1.72"));
    assert_eq!(s.hdop, some("1.03"));
    assert_eq!(s.vdop, some("1.38"));
    assert_eq!(s.latitude, some("53.75"));
    assert!(a.ingest(GSV));
    let s = a.snapshot();
    assert_eq!(s.satellites.as_ref().map(|v| v.len()), Some(2));
    assert_eq!(s.latitude, some("53.75"));
}

#[test]
fn preamble_then_mixed_lines() {
    let lines = ["$PREAMBLE", GGA_FIRST, "garbage", GGA_SECOND];
    let mut filter = LineFilter::new();
    let mut a = Aggregator::new();
    for line in lines.iter() {
        if filter.forward() {
            a.ingest(line);
        }
    }
    assert_eq!(history_texts(&a), vec![GGA_SECOND.to_string(), GGA_FIRST.to_string()]);
    assert_eq!(a.snapshot().latitude, some("53.75"));
    assert!(a.history().iter().all(|e| e.text != "garbage"));
}

#[test]
fn preamble_is_dropped_even_when_valid() {
    let mut filter = LineFilter::new();
    let mut a = Aggregator::new();
    for line in [GGA_FIRST, GGA_SECOND].iter() {
        if filter.forward() {
            a.ingest(line);
        }
    }
    assert_eq!(history_texts(&a), vec![GGA_SECOND.to_string()]);
    assert!(filter.forward());
}

#[test]
fn history_keeps_newest_hundred() {
    let mut a = Aggregator::new();
    let mut lines = Vec::new();
    for i in 0..150u32 {
        let body = format!(
            "GPGGA,{:02}{:02}{:02}.000,5330.0000,N,00630.0000,W,1,8,1.03,61.7,M,55.2,M,,",
            10 + i / 3600,
            (i / 60) % 60,
            i % 60
        );
        let line = sentence(&body);
        assert!(a.ingest(&line));
        assert!(a.history().len() <= HISTORY_CAPACITY);
        assert_eq!(a.history()[0].text, line);
        lines.push(line);
    }
    assert_eq!(a.history().len(), 100);
    let expected: Vec<String> = lines.iter().rev().take(100).cloned().collect();
    assert_eq!(history_texts(&a), expected);
}

#[test]
fn history_text_is_trimmed_and_stamped() {
    let mut a = Aggregator::new();
    let padded = format!("{}  \r", GGA_FIRST);
    assert!(a.ingest(&padded));
    assert_eq!(a.history()[0].text, GGA_FIRST);
    assert!(!a.history()[0].stamp.is_empty());
    assert!(!a.ingest("  garbage  "));
    assert!(a.history().iter().all(|e| e.text.starts_with('$')));
}

#[test]
fn apply_folds_and_bounds() {
    let mut a = Aggregator::new();
    for i in 0..105u32 {
        let mut t = Telemetry::new();
        t.num_of_fix_satellites = Some(i);
        a.apply(t, Entry { stamp: String::new(), text: format!("{}", i) });
    }
    assert_eq!(a.history().len(), 100);
    assert_eq!(a.history()[0].text, "104");
    assert_eq!(a.history()[99].text, "5");
    assert_eq!(a.snapshot().num_of_fix_satellites, Some(104));
    a.apply(Telemetry::new(), Entry { stamp: String::new(), text: "x".to_string() });
    assert_eq!(a.snapshot().num_of_fix_satellites, Some(104));
}

#[test]
fn merge_overwrites_supplied_fields() {
    let mut s = Telemetry::new();
    s.latitude = some("1");
    s.altitude = some("2");
    let mut n = Telemetry::new();
    n.latitude = some("3");
    n.satellites = Some(vec![]);
    s.merge(n);
    assert_eq!(s.latitude, some("3"));
    assert_eq!(s.altitude, some("2"));
    assert_eq!(s.satellites, Some(vec![]));
}

#[test]
fn redraws_until_exit_key() {
    let config = Config::default();
    let mut lp = RenderLoop::new(&config);
    let events = [
        Event::Tick,
        Event::Tick,
        Event::Input(Key::Char('x')),
        Event::Tick,
        Event::Input(Key::Char('q')),
        Event::Tick,
    ];
    let mut redraws = 0;
    let mut redraws_before_x = None;
    for e in events.iter() {
        if let Event::Input(Key::Char('x')) = e {
            redraws_before_x = Some(redraws);
        }
        match lp.step(*e) {
            Action::Redraw => redraws += 1,
            Action::Exit => break,
        }
    }
    assert_eq!(redraws_before_x, Some(2));
    assert_eq!(redraws, 4);
    assert!(!lp.running());
}

#[test]
fn exit_key_stops_at_once() {
    let config = Config { exit_key: Key::Esc, tick_rate_ms: 250 };
    let mut lp = RenderLoop::new(&config);
    assert_eq!(lp.step(Event::Input(Key::Char('q'))), Action::Redraw);
    assert!(lp.running());
    assert_eq!(lp.step(Event::Input(Key::Esc)), Action::Exit);
    assert!(!lp.running());
}

#[test]
fn default_config() {
    let c = Config::default();
    assert_eq!(c.exit_key, Key::Char('q'));
    assert_eq!(c.tick_rate_ms, 50);
}

#[test]
fn input_listener_stops_after_exit_key() {
    let c = Config::default();
    assert!(!input_continues(&c, false, Key::Char('q')));
    assert!(input_continues(&c, true, Key::Char('q')));
    assert!(input_continues(&c, false, Key::Char('x')));
    assert!(input_continues(&c, false, Key::Ctrl('q')));
}

#[test]
fn option_str_placeholder() {
    assert_eq!(option_str(None), "<not available>");
    assert_eq!(NOT_AVAILABLE, "<not available>");
    assert_eq!(option_str(some("12")), "12");
}

#[test]
fn datetime_needs_both() {
    assert_eq!(datetime_str(&some("2011-05-28"), &some("09:27:50")), some("2011-05-28 09:27:50"));
    assert_eq!(datetime_str(&None, &some("09:27:50")), None);
    assert_eq!(datetime_str(&some("2011-05-28"), &None), None);
}

const GSV_GROUP: [&str; 3] = [
    "$GPGSV,3,1,12,01,40,083,46,02,40,083,46,03,40,083,46,04,40,083,46*7C",
    "$GPGSV,3,2,12,05,40,083,46,06,40,083,46,07,40,083,46,08,40,083,46*77",
    "$GPGSV,3,3,12,09,40,083,46,10,40,083,46,11,40,083,46,12,40,083,46*71",
];

#[test]
fn satellites_gather_over_a_gsv_group() {
    let mut a = Aggregator::new();
    for (i, line) in GSV_GROUP.iter().enumerate() {
        assert!(a.ingest(line));
        assert_eq!(a.snapshot().satellites.as_ref().map(|v| v.len()), Some(4 * (i + 1)));
    }
    assert!(a.ingest(GGA_FIRST));
    assert_eq!(a.snapshot().satellites.as_ref().map(|v| v.len()), Some(12));
    assert!(a.ingest(GSV_GROUP[0]));
    assert_eq!(a.snapshot().satellites.as_ref().map(|v| v.len()), Some(12));
}

#[test]
fn gsv_pack_beyond_limit_leaves_satellites() {
    let mut a = Aggregator::new();
    assert!(a.ingest(GSV_GROUP[0]));
    for _ in 0..20 {
        assert!(a.ingest("$GPGSV,20,15,12,31,40,083,46*43"));
    }
    assert_eq!(a.snapshot().satellites.as_ref().map(|v| v.len()), Some(4));
    assert_eq!(a.history().len(), 21);
}

#[test]
fn stamp_is_utc_to_the_second() {
    let mut a = Aggregator::new();
    assert!(a.ingest(GGA_FIRST));
    let stamp = &a.history()[0].stamp;
    assert!(stamp == NO_STAMP || (stamp.len() == 20 && stamp.ends_with('Z')), "{}", stamp);
}

fn gsv(talker: &str, pack: u32, first_prn: u32) -> String {
    let sats: Vec<String> = (0..4).map(|k| format!("{:02},40,083,46", first_prn + k)).collect();
    sentence(&format!("{}GSV,14,{},60,{}", talker, pack, sats.join(",")))
}

#[test]
fn satellites_stop_at_the_list_bound() {
    let mut a = Aggregator::new();
    for pack in 1..=14u32 {
        assert!(a.ingest(&gsv("GP", pack, 1 + 4 * (pack - 1))));
    }
    assert_eq!(a.snapshot().satellites.as_ref().map(|v| v.len()), Some(56));
    assert!(a.ingest(&gsv("GL", 1, 65)));
    assert_eq!(a.snapshot().satellites.as_ref().map(|v| v.len()), Some(56));
    assert_eq!(a.history().len(), 15);
}

#[test]
fn newest_gsv_satellite_is_listed() {
    let mut a = Aggregator::new();
    assert!(a.ingest(GSV_GROUP[0]));
    let sats = a.snapshot().satellites.clone().unwrap();
    assert!(sats.iter().any(|s| s.contains(": 1 ")), "{:?}", sats);
}

#[test]
fn drain_takes_accepted_lines_in_order() {
    let mut a = Aggregator::new();
    let lines = vec![GGA_FIRST.to_string(), "garbage".to_string(), GGA_SECOND.to_string()];
    assert_eq!(a.ingest_all(&lines), 2);
    assert_eq!(history_texts(&a), vec![GGA_SECOND.to_string(), GGA_FIRST.to_string()]);
    assert_eq!(a.snapshot().latitude, some("53.75"));
    assert_eq!(a.ingest_all(&Vec::new()), 0);
    assert_eq!(a.history().len(), 2);
}

#[test]
fn drain_of_many_keeps_newest_hundred() {
    let mut a = Aggregator::new();
    let lines: Vec<String> = (0..150u32)
        .map(|i| {
            sentence(&format!(
                "GPGGA,10{:02}{:02}.000,5330.0000,N,00630.0000,W,1,8,1.03,61.7,M,55.2,M,,",
                i / 60,
                i % 60
            ))
        })
        .collect();
    assert_eq!(a.ingest_all(&lines), 150);
    assert_eq!(a.history().len(), 100);
    for i in 0..100 {
        assert_eq!(a.history()[i].text, lines[149 - i]);
    }
}
