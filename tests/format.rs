use epics_tools::config::DisplayConfig;
use epics_tools::types::{render_civil, CivilTime, FloatText, Info, RawValue, Stamp, Timed};

fn at<T>(value: T) -> Timed<T> {
    Timed { stamp: Stamp { sec: 1000, nsec: 250_000_000 }, value }
}

fn cfg(terse: bool, wide: bool) -> DisplayConfig {
    DisplayConfig { wait_ms: 1000, asynchronous: false, terse, wide }
}

fn civil() -> CivilTime {
    CivilTime { year: 2024, month: 3, day: 5, hour: 7, minute: 8, second: 9, nanosecond: 123_456_789 }
}

fn float_text(x: f64) -> FloatText {
    FloatText { fixed: format!("{:.5}", x), plain: x.to_string() }
}

#[test]
fn scalar_long_lines_pad_the_name() {
    let a = Info::new("A".to_string(), 1, RawValue::Long(at(7)));
    let b = Info::new("B".to_string(), 1, RawValue::Long(at(42)));
    assert_eq!(a.render_line(&cfg(false, false), &civil()), format!("{:<30} 7", "A"));
    assert_eq!(b.render_line(&cfg(false, false), &civil()), format!("{:<30} 42", "B"));
    assert_eq!(a.render_line(&cfg(false, false), &civil()).len(), 32);
}

#[test]
fn double_array_pads_with_zeros() {
    let v = RawValue::DoubleArray(at(vec![float_text(1.0), float_text(2.0)]));
    let info = Info::new("W".to_string(), 3, v);
    assert_eq!(info.format_array(3), "1 2 0");
    assert_eq!(info.render_line(&cfg(false, false), &civil()), "W 3 1 2 0");
    assert_eq!(info.render_line(&cfg(true, false), &civil()), "3 1 2 0");
}

#[test]
fn long_array_padding_fills_to_count() {
    let v = RawValue::LongArray(at(vec![1, -2]));
    assert_eq!(v.format_array(5), "1 -2 0 0 0");
    let tokens: Vec<String> = v.format_array(5).split(' ').map(|s| s.to_string()).collect();
    assert_eq!(tokens.len(), 5);
    assert_eq!(&tokens[2..], &["0", "0", "0"]);
    assert_eq!(v.format_array(2), "1 -2");
    assert_eq!(v.format_array(1), "1 -2");
}

#[test]
fn other_arrays_follow_the_same_rule() {
    let s = RawValue::ShortArray(at(vec![5i16]));
    assert_eq!(s.format_array(3), "5 0 0");
    let f = RawValue::FloatArray(at(vec![float_text(0.5)]));
    assert_eq!(f.format_array(2), "0.5 0");
    let t = RawValue::StringArray(at(vec![b"on".to_vec(), b"off".to_vec()]));
    assert_eq!(t.format_array(3), "on off 0");
}

#[test]
fn scalar_values_render() {
    assert_eq!(RawValue::Short(at(-5)).format_scalar(), "-5");
    assert_eq!(RawValue::Long(at(i32::MIN)).format_scalar(), "-2147483648");
    assert_eq!(RawValue::Long(at(0)).format_scalar(), "0");
    assert_eq!(RawValue::Enum(at(3)).format_scalar(), "3");
    assert_eq!(RawValue::Char(at(65)).format_scalar(), "65");
    assert_eq!(RawValue::Double(at(float_text(3.14159265))).format_scalar(), "3.14159");
    assert_eq!(RawValue::Float(at(float_text(2.0))).format_scalar(), "2.00000");
    assert_eq!(RawValue::String(at(b"hello world".to_vec())).format_scalar(), "hello world");
}

#[test]
fn string_value_is_decoded_lossily() {
    let v = RawValue::String(at(vec![0x66, 0xff, 0x6f]));
    assert_eq!(v.format_scalar(), "f\u{FFFD}o");
    assert_eq!(RawValue::String(at(vec![])).format_scalar(), "");
}

#[test]
fn civil_time_renders_with_micros() {
    assert_eq!(render_civil(&civil()), "2024-03-05 07:08:09.123456");
    let leap = CivilTime { second: 59, nanosecond: 1_500_000_000, ..civil() };
    assert_eq!(render_civil(&leap), "2024-03-05 07:08:60.500000");
    let far = CivilTime { year: 12345, ..civil() };
    assert_eq!(render_civil(&far), "+12345-03-05 07:08:09.123456");
    let early = CivilTime { year: -5, ..civil() };
    assert_eq!(render_civil(&early), "-0005-03-05 07:08:09.123456");
    let small = CivilTime { year: 7, ..civil() };
    assert_eq!(render_civil(&small), "0007-03-05 07:08:09.123456");
}

#[test]
fn wide_line_carries_the_stamp_column() {
    let info = Info::new("T".to_string(), 1, RawValue::Short(at(1)));
    let line = info.render_line(&cfg(false, true), &civil());
    assert_eq!(line, format!("{:<30} 2024-03-05 07:08:09.123456 1", "T"));
    assert_eq!(info.render_line(&cfg(true, true), &civil()), "2024-03-05 07:08:09.123456 1");
    assert_eq!(info.render_line(&cfg(true, false), &civil()), "1");
}

#[test]
fn formatting_twice_gives_the_same_text() {
    let info = Info::new("P".to_string(), 2, RawValue::LongArray(at(vec![4])));
    let c = cfg(false, true);
    assert_eq!(info.render_line(&c, &civil()), info.render_line(&c, &civil()));
    assert_eq!(info.format_line(&c), info.format_line(&c));
}

#[test]
fn local_stamp_has_the_documented_shape() {
    let info = Info::new("S".to_string(), 1, RawValue::Long(at(1)));
    let s = info.format_stamp();
    assert_eq!(s.len(), 26);
    let b = s.as_bytes();
    assert_eq!(b[4], b'-');
    assert_eq!(b[7], b'-');
    assert_eq!(b[10], b' ');
    assert_eq!(b[13], b':');
    assert_eq!(b[16], b':');
    assert!(s.ends_with(".250000"));
    assert!(s.starts_with("1990") || s.starts_with("1989"));
}

#[test]
fn long_name_is_not_cut() {
    let name = "X".repeat(40);
    let info = Info::new(name.clone(), 1, RawValue::Long(at(9)));
    assert_eq!(info.render_line(&cfg(false, false), &civil()), format!("{} 9", name));
    assert!(info.is_scalar());
    assert_eq!(info.format_scalar(), "9");
}
