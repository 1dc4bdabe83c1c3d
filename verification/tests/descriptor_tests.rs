use finch_gen::descriptor::{
    lower_fallible, lower_fallible_string, lower_optional, lower_optional_string,
    unlower_optional, unlower_optional_string, FinchCString, FinchOption, FinchResult,
    FinchString,
};

#[test]
fn string_round_trip_empty() {
    let d = FinchString::new(Vec::new());
    assert_eq!(d.len(), 0);
    assert_eq!(d.into_bytes(), Vec::<u8>::new());
}

#[test]
fn string_round_trip_single_byte() {
    let d = FinchString::new(vec![42u8]);
    assert_eq!(d.len(), 1);
    assert_eq!(d.into_bytes(), vec![42u8]);
}

#[test]
fn string_round_trip_interior_nulls() {
    let data = vec![1u8, 0, 2, 0, 0, 3];
    let d = FinchString::new(data.clone());
    assert_eq!(d.len(), 6);
    assert_eq!(d.into_bytes(), data);
}

#[test]
fn owned_string_round_trip() {
    let s = String::from("grüße, boundary");
    let d = FinchString::from_string(&s);
    assert_eq!(d.len(), s.len());
    assert_eq!(d.into_string(), Some(s));
}

#[test]
fn owned_string_round_trip_empty() {
    let d = FinchString::from_string(&String::new());
    assert_eq!(d.len(), 0);
    assert_eq!(d.into_string(), Some(String::new()));
}

#[test]
fn invalid_bytes_do_not_unlower() {
    let d = FinchString::new(vec![0xffu8, 0xfe]);
    assert_eq!(d.into_string(), None);
}

#[test]
fn cstring_rejects_interior_null() {
    assert!(FinchCString::from_bytes(vec![104u8, 0, 105]).is_none());
}

#[test]
fn cstring_round_trip() {
    let c = FinchCString::from_bytes(vec![104u8, 105]).unwrap();
    assert_eq!(c.len(), 2);
    assert_eq!(c.into_bytes(), vec![104u8, 105]);
}

#[test]
fn optional_round_trip_primitives() {
    assert_eq!(unlower_optional(lower_optional(Some(7i32))), Some(7i32));
    assert_eq!(unlower_optional(lower_optional(Some(true))), Some(true));
    assert_eq!(unlower_optional(lower_optional(Some('z'))), Some('z'));
    assert_eq!(unlower_optional(lower_optional(Some(2.5f64))), Some(2.5f64));
    assert_eq!(unlower_optional(lower_optional::<u64>(None)), None);
}

#[test]
fn optional_none_lowers_to_absent_tag() {
    assert!(matches!(lower_optional::<i32>(None), FinchOption::Absent));
    assert!(matches!(lower_optional(Some(3u8)), FinchOption::Present(3u8)));
}

#[test]
fn optional_string_round_trip() {
    let d = lower_optional_string(Some(String::from("payload")));
    match unlower_optional_string(d) {
        Some(Some(s)) => assert_eq!(s, "payload"),
        _ => panic!("present payload must come back"),
    }
    match unlower_optional_string(lower_optional_string(None)) {
        Some(None) => {}
        _ => panic!("absent value must come back absent"),
    }
}

#[test]
fn fallible_ok_carries_payload() {
    match lower_fallible::<i32>(Ok(11)) {
        FinchResult::Success(x) => assert_eq!(x, 11),
        FinchResult::Failure(_) => panic!("success must take the success tag"),
    }
}

#[test]
fn fallible_err_carries_rendering_only() {
    match lower_fallible::<i32>(Err(String::from("boom"))) {
        FinchResult::Success(_) => panic!("an error must take the failure tag"),
        FinchResult::Failure(f) => assert_eq!(f.into_string(), Some(String::from("boom"))),
    }
}

struct CustomError {
    code: u32,
}

impl CustomError {
    fn rendering(&self) -> String {
        format!("custom failure {}", self.code)
    }
}

#[test]
fn result_string_scenario() {
    // A method returning a fallible owned string: the success payload is a
    // string descriptor with the returned text; the failure payload is a
    // string descriptor with the error's rendered text, never its structure.
    match lower_fallible_string(Ok(String::from("all good"))) {
        FinchResult::Success(f) => assert_eq!(f.into_string(), Some(String::from("all good"))),
        FinchResult::Failure(_) => panic!("success must take the success tag"),
    }
    let err = CustomError { code: 7 };
    match lower_fallible_string(Err(err.rendering())) {
        FinchResult::Success(_) => panic!("an error must take the failure tag"),
        FinchResult::Failure(f) => {
            assert_eq!(f.into_string(), Some(String::from("custom failure 7")))
        }
    }
}
