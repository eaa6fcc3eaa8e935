use epics_tools::common::{grab_info, read_plan, value_plan, ReadPlan};
use epics_tools::types::{FloatText, RawValue, Stamp, Timed, WireType};
use epics_tools::UnifiedError;

fn stamp() -> Stamp {
    Stamp { sec: 100, nsec: 5 }
}

fn long(v: i32) -> RawValue {
    RawValue::Long(Timed { stamp: stamp(), value: v })
}

#[test]
fn scalar_pairs_have_scalar_plans() {
    let cases = [
        (WireType::Char, ReadPlan::Char),
        (WireType::Short, ReadPlan::Short),
        (WireType::Enum, ReadPlan::Enum),
        (WireType::Long, ReadPlan::Long),
        (WireType::Float, ReadPlan::Float),
        (WireType::Double, ReadPlan::Double),
        (WireType::String, ReadPlan::String),
    ];
    for (wire, plan) in cases {
        assert_eq!(read_plan(wire, 1), Ok(plan));
    }
}

#[test]
fn array_pairs_have_array_plans() {
    let cases = [
        (WireType::Short, ReadPlan::ShortArray),
        (WireType::Long, ReadPlan::LongArray),
        (WireType::Float, ReadPlan::FloatArray),
        (WireType::Double, ReadPlan::DoubleArray),
        (WireType::String, ReadPlan::StringArray),
    ];
    for (wire, plan) in cases {
        assert_eq!(read_plan(wire, 4), Ok(plan));
    }
}

#[test]
fn char_and_enum_arrays_are_not_supported() {
    assert_eq!(read_plan(WireType::Char, 2), Err(UnifiedError::NotSupported(WireType::Char)));
    assert_eq!(read_plan(WireType::Enum, 10), Err(UnifiedError::NotSupported(WireType::Enum)));
}

#[test]
fn zero_elements_count_as_array() {
    assert_eq!(read_plan(WireType::Long, 0), Ok(ReadPlan::LongArray));
}

#[test]
fn grab_info_keeps_a_matching_reading() {
    let info = grab_info("A".to_string(), 1, WireType::Long, long(7)).unwrap();
    assert_eq!(info.name, "A");
    assert_eq!(info.elements, 1);
    assert!(matches!(info.value, RawValue::Long(Timed { value: 7, .. })));
    assert_eq!(value_plan(&info.value), ReadPlan::Long);
}

#[test]
fn grab_info_refuses_a_mismatched_reading() {
    let r = grab_info("A".to_string(), 3, WireType::Long, long(7));
    assert!(matches!(r, Err(UnifiedError::ProtocolError(_))));
    let r = grab_info("A".to_string(), 1, WireType::Short, long(7));
    assert!(matches!(r, Err(UnifiedError::ProtocolError(_))));
}

#[test]
fn grab_info_reports_unsupported_arrays() {
    let r = grab_info("E".to_string(), 3, WireType::Enum, long(7));
    assert_eq!(r.unwrap_err(), UnifiedError::NotSupported(WireType::Enum));
}

#[test]
fn grab_info_accepts_double_array() {
    let value = RawValue::DoubleArray(Timed {
        stamp: stamp(),
        value: vec![FloatText { fixed: "1.00000".to_string(), plain: "1".to_string() }],
    });
    let info = grab_info("D".to_string(), 3, WireType::Double, value).unwrap();
    assert_eq!(info.elements, 3);
    assert_eq!(value_plan(&info.value), ReadPlan::DoubleArray);
}

#[test]
fn get_stamp_returns_the_server_stamp() {
    let v = RawValue::StringArray(Timed { stamp: Stamp { sec: 9, nsec: 8 }, value: vec![] });
    assert_eq!(v.get_stamp(), Stamp { sec: 9, nsec: 8 });
}
