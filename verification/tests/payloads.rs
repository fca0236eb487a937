use statefun_greeter::greeter::{LoginType, MyUserProfile, SomeValue, UserLogin, UserProfile};
use statefun_greeter::serializable::{decode_value, encode_value};
use statefun_greeter::{DecodeError, Serializable, TypeName, TypedValue};

fn tag<T: TypeName>() -> String {
    T::get_typename().to_string()
}

#[test]
fn int_is_four_bytes_lowest_first() {
    assert_eq!(1i32.serialize(tag::<i32>()), Ok(vec![1, 0, 0, 0]));
    assert_eq!(258i32.serialize(tag::<i32>()), Ok(vec![2, 1, 0, 0]));
    assert_eq!((-1i32).serialize(tag::<i32>()), Ok(vec![255, 255, 255, 255]));
    assert_eq!(i32::MIN.serialize(tag::<i32>()), Ok(vec![0, 0, 0, 128]));
    assert_eq!(i32::MAX.serialize(tag::<i32>()), Ok(vec![255, 255, 255, 127]));
}

#[test]
fn int_round_trip() {
    for v in [0i32, 1, -1, 123, -123, 65536, i32::MIN, i32::MAX] {
        let bytes = v.serialize(tag::<i32>()).unwrap();
        assert_eq!(i32::deserialize(tag::<i32>(), &bytes), Ok(v));
    }
}

#[test]
fn int_rejects_other_lengths() {
    assert!(i32::deserialize(tag::<i32>(), &vec![]).is_err());
    assert!(i32::deserialize(tag::<i32>(), &vec![1, 2, 3]).is_err());
    assert!(i32::deserialize(tag::<i32>(), &vec![1, 2, 3, 4, 5]).is_err());
}

#[test]
fn int_rejects_another_tag() {
    assert!(i32::deserialize(tag::<i64>(), &vec![1, 0, 0, 0]).is_err());
}

#[test]
fn long_is_eight_bytes_lowest_first() {
    assert_eq!(1i64.serialize(tag::<i64>()), Ok(vec![1, 0, 0, 0, 0, 0, 0, 0]));
    assert_eq!((-2i64).serialize(tag::<i64>()), Ok(vec![254, 255, 255, 255, 255, 255, 255, 255]));
    assert_eq!(i64::MIN.serialize(tag::<i64>()), Ok(vec![0, 0, 0, 0, 0, 0, 0, 128]));
    assert_eq!(
        0x0102_0304_0506_0708i64.serialize(tag::<i64>()),
        Ok(vec![8, 7, 6, 5, 4, 3, 2, 1])
    );
}

#[test]
fn long_round_trip() {
    for v in [0i64, 1, -1, 1_700_000_000, -1_700_000_000, i64::MIN, i64::MAX] {
        let bytes = v.serialize(tag::<i64>()).unwrap();
        assert_eq!(i64::deserialize(tag::<i64>(), &bytes), Ok(v));
    }
}

#[test]
fn long_rejects_other_lengths_and_tags() {
    assert!(i64::deserialize(tag::<i64>(), &vec![0; 7]).is_err());
    assert!(i64::deserialize(tag::<i64>(), &vec![0; 9]).is_err());
    assert!(i64::deserialize(tag::<i32>(), &vec![0; 8]).is_err());
}

#[test]
fn type_names_are_stable() {
    assert_eq!(i32::get_typename(), "io.statefun.types/int");
    assert_eq!(i64::get_typename(), "io.statefun.types/long");
    assert_eq!(SomeValue::get_typename(), "greeter.types/SomeValue");
    assert_eq!(UserLogin::get_typename(), "greeter.types/UserLogin");
    assert_eq!(MyUserProfile::get_typename(), "greeter.types/UserProfile");
}

#[test]
fn some_value_new_keeps_the_number() {
    assert_eq!(SomeValue::new(123).x, 123);
    assert_eq!(SomeValue::new(-7), SomeValue { x: -7 });
}

#[test]
fn some_value_is_a_json_object() {
    assert_eq!(
        SomeValue::new(123).serialize(tag::<SomeValue>()),
        Ok(b"{\"x\":123}".to_vec())
    );
    assert_eq!(SomeValue::new(0).serialize(tag::<SomeValue>()), Ok(b"{\"x\":0}".to_vec()));
    assert_eq!(SomeValue::new(-5).serialize(tag::<SomeValue>()), Ok(b"{\"x\":-5}".to_vec()));
    assert_eq!(
        SomeValue::new(i32::MIN).serialize(tag::<SomeValue>()),
        Ok(b"{\"x\":-2147483648}".to_vec())
    );
}

#[test]
fn some_value_round_trip() {
    for x in [0, 1, -1, 9, 10, 123, -123, i32::MIN, i32::MAX] {
        let bytes = SomeValue::new(x).serialize(tag::<SomeValue>()).unwrap();
        assert_eq!(SomeValue::deserialize(tag::<SomeValue>(), &bytes), Ok(SomeValue { x }));
    }
}

#[test]
fn some_value_reads_what_the_parser_reads() {
    let read = |text: &str| SomeValue::deserialize(tag::<SomeValue>(), &text.as_bytes().to_vec());
    assert_eq!(read("{\"x\":7}"), Ok(SomeValue { x: 7 }));
    assert_eq!(read(" { \"x\" : 7 } "), Ok(SomeValue { x: 7 }));
    assert_eq!(read("{\"y\":true,\"x\":-8}"), Ok(SomeValue { x: -8 }));
}

#[test]
fn some_value_rejects_what_is_no_object_with_an_int() {
    let read = |text: &str| SomeValue::deserialize(tag::<SomeValue>(), &text.as_bytes().to_vec());
    assert!(read("").is_err());
    assert!(read("123").is_err());
    assert!(read("[1]").is_err());
    assert!(read("{\"x\":").is_err());
    assert!(read("{\"y\":1}").is_err());
    assert!(read("{\"x\":\"1\"}").is_err());
    assert!(read("{\"x\":1.5}").is_err());
    assert!(read("{\"x\":2147483648}").is_err());
    assert!(read("{\"x\":-2147483649}").is_err());
    assert!(read("{\"x\":1} trailing").is_err());
}

#[test]
fn some_value_rejects_another_tag() {
    assert!(SomeValue::deserialize(tag::<i32>(), &b"{\"x\":1}".to_vec()).is_err());
}

#[test]
fn user_login_is_a_type_byte_and_a_text_field() {
    let login = UserLogin { user_name: "al".to_string(), login_type: LoginType::Mobile };
    assert_eq!(login.serialize(tag::<UserLogin>()), Ok(vec![1, 2, 0, 0, 0, b'a', b'l']));
    let login = UserLogin { user_name: String::new(), login_type: LoginType::Web };
    assert_eq!(login.serialize(tag::<UserLogin>()), Ok(vec![0, 0, 0, 0, 0]));
}

#[test]
fn user_login_round_trip() {
    for (name, login_type) in
        [("alice", LoginType::Web), ("", LoginType::Mobile), ("zo\u{eb} \u{1f600}", LoginType::Web)]
    {
        let login = UserLogin { user_name: name.to_string(), login_type };
        let bytes = login.serialize(tag::<UserLogin>()).unwrap();
        let back = UserLogin::deserialize(tag::<UserLogin>(), &bytes).unwrap();
        assert_eq!(back.user_name, name);
        assert_eq!(back.login_type, login_type);
    }
}

#[test]
fn user_login_rejects_malformed_bytes() {
    let read = |bytes: Vec<u8>| UserLogin::deserialize(tag::<UserLogin>(), &bytes);
    assert!(read(vec![]).is_err());
    assert!(read(vec![2, 0, 0, 0, 0]).is_err());
    assert!(read(vec![0, 0, 0, 0]).is_err());
    assert!(read(vec![0, 3, 0, 0, 0, b'a', b'b']).is_err());
    assert!(read(vec![0, 1, 0, 0, 0, b'a', b'b']).is_err());
    assert!(read(vec![0, 1, 0, 0, 0, 0xff]).is_err());
    assert!(UserLogin::deserialize(tag::<i32>(), &vec![0, 0, 0, 0, 0]).is_err());
}

#[test]
fn login_type_names() {
    assert_eq!(LoginType::Web.name(), "Web");
    assert_eq!(LoginType::Mobile.name(), "Mobile");
}

fn profile(name: &str, location: &str, seen_count: i32, delta: i64) -> MyUserProfile {
    let mut profile = UserProfile::new();
    profile.set_name(name.to_string());
    profile.set_login_location(location.to_string());
    profile.set_seen_count(seen_count);
    profile.set_last_seen_delta_ms(delta);
    MyUserProfile(profile)
}

#[test]
fn user_profile_starts_empty() {
    let p = UserProfile::new();
    assert_eq!(p.get_name(), "");
    assert_eq!(p.get_login_location(), "");
    assert_eq!(p.get_seen_count(), 0);
    assert_eq!(p.get_last_seen_delta_ms(), 0);
}

#[test]
fn user_profile_setters_set_one_field() {
    let p = profile("bob", "Web", 3, -4).0;
    assert_eq!(p.get_name(), "bob");
    assert_eq!(p.get_login_location(), "Web");
    assert_eq!(p.get_seen_count(), 3);
    assert_eq!(p.get_last_seen_delta_ms(), -4);
}

#[test]
fn user_profile_is_two_text_fields_and_two_numbers() {
    let bytes = profile("ab", "W", 2, 3).serialize(tag::<MyUserProfile>()).unwrap();
    assert_eq!(
        bytes,
        vec![2, 0, 0, 0, b'a', b'b', 1, 0, 0, 0, b'W', 2, 0, 0, 0, 3, 0, 0, 0, 0, 0, 0, 0]
    );
}

#[test]
fn user_profile_round_trip() {
    for (name, location, count, delta) in [
        ("alice", "Web", 1, 0i64),
        ("", "", 0, 0),
        ("bob", "Mobile", -1, -1),
        ("carol", "Web", i32::MAX, i64::MIN),
        ("dave", "Web", i32::MIN, i64::MAX),
    ] {
        let bytes = profile(name, location, count, delta).serialize(tag::<MyUserProfile>()).unwrap();
        let back = MyUserProfile::deserialize(tag::<MyUserProfile>(), &bytes).unwrap().0;
        assert_eq!(back.get_name(), name);
        assert_eq!(back.get_login_location(), location);
        assert_eq!(back.get_seen_count(), count);
        assert_eq!(back.get_last_seen_delta_ms(), delta);
    }
}

#[test]
fn user_profile_rejects_malformed_bytes() {
    let read = |bytes: Vec<u8>| MyUserProfile::deserialize(tag::<MyUserProfile>(), &bytes);
    assert!(read(vec![]).is_err());
    assert!(read(vec![0, 0, 0, 0]).is_err());
    assert!(read(vec![0, 0, 0, 0, 0, 0, 0, 0]).is_err());
    assert!(read(vec![0; 19]).is_err());
    assert!(read(vec![0; 21]).is_err());
    assert!(read(vec![0; 20]).is_ok());
}

#[test]
fn encode_value_tags_the_bytes() {
    let tv = encode_value(&SomeValue::new(5)).unwrap();
    assert_eq!(tv.typename, "greeter.types/SomeValue");
    assert_eq!(tv.value, b"{\"x\":5}".to_vec());
    let tv = encode_value(&7i64).unwrap();
    assert_eq!(tv, TypedValue::new("io.statefun.types/long", vec![7, 0, 0, 0, 0, 0, 0, 0]));
}

#[test]
fn decode_value_checks_the_tag_first() {
    let tv = TypedValue::new("io.statefun.types/long", vec![1, 0, 0, 0]);
    match decode_value::<i32>(&tv) {
        Err(DecodeError::WrongTypeName { expected, actual }) => {
            assert_eq!(expected, "io.statefun.types/int");
            assert_eq!(actual, "io.statefun.types/long");
        }
        other => panic!("unexpected: {:?}", other),
    }
}

#[test]
fn decode_value_reports_malformed_bytes() {
    let tv = TypedValue::new("io.statefun.types/int", vec![1, 0, 0]);
    assert!(matches!(decode_value::<i32>(&tv), Err(DecodeError::Malformed { .. })));
    let tv = TypedValue::new("greeter.types/SomeValue", b"{}".to_vec());
    assert!(matches!(decode_value::<SomeValue>(&tv), Err(DecodeError::Malformed { .. })));
}

#[test]
fn decode_value_reads_what_encode_value_wrote() {
    let tv = encode_value(&-42i32).unwrap();
    assert_eq!(decode_value::<i32>(&tv).unwrap(), -42);
    let tv = encode_value(&SomeValue::new(123)).unwrap();
    assert_eq!(decode_value::<SomeValue>(&tv).unwrap(), SomeValue { x: 123 });
}
