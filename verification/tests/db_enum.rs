use home_automation_rs::models::db_enum::DbEnum;

#[derive(Debug, PartialEq)]
enum TestEnum {
    Variant1,
    Variant2,
    Variant3,
}

impl DbEnum for TestEnum {
    fn to_db_string(&self) -> &'static str {
        match self {
            TestEnum::Variant1 => "variant1",
            TestEnum::Variant2 => "variant2",
            TestEnum::Variant3 => "variant3",
        }
    }

    fn from_db_string(s: &str) -> Option<Self> {
        match s {
            "variant1" => Some(TestEnum::Variant1),
            "variant2" => Some(TestEnum::Variant2),
            "variant3" => Some(TestEnum::Variant3),
            _ => None,
        }
    }
}

#[test]
fn test_to_db_string() {
    assert_eq!(TestEnum::Variant1.to_db_string(), "variant1");
    assert_eq!(TestEnum::Variant2.to_db_string(), "variant2");
    assert_eq!(TestEnum::Variant3.to_db_string(), "variant3");
}

#[test]
fn test_from_db_string_valid() {
    assert_eq!(TestEnum::from_db_string("variant1"), Some(TestEnum::Variant1));
    assert_eq!(TestEnum::from_db_string("variant2"), Some(TestEnum::Variant2));
    assert_eq!(TestEnum::from_db_string("variant3"), Some(TestEnum::Variant3));
}

#[test]
fn test_from_db_string_invalid() {
    assert_eq!(TestEnum::from_db_string("invalid"), None);
    assert_eq!(TestEnum::from_db_string(""), None);
    assert_eq!(TestEnum::from_db_string("VARIANT1"), None);
}

#[test]
fn test_roundtrip() {
    let variants = vec![TestEnum::Variant1, TestEnum::Variant2, TestEnum::Variant3];
    for variant in variants {
        let db_string = variant.to_db_string();
        let parsed = TestEnum::from_db_string(db_string);
        assert_eq!(Some(variant), parsed);
    }
}
