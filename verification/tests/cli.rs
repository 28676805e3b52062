use helligkeit::cli::{Action, Adjust, Value};

#[test]
fn values() {
    assert_eq!(Value::parse("300"), Ok(Value::Absolute(300)));
    assert_eq!(Value::parse("50%"), Ok(Value::Percent(50)));
    assert_eq!(Value::parse("100%"), Ok(Value::Percent(100)));
    assert_eq!(Value::parse("0%"), Ok(Value::Percent(0)));
    assert_eq!(Value::parse("+7"), Ok(Value::Absolute(7)));
}

#[test]
fn invalid_values() {
    assert_eq!(Value::parse("101%"), Err("'101%' exceeds 100%".to_string()));
    assert_eq!(Value::parse("abc"), Err("'abc' is not a valid brightness value".to_string()));
    assert_eq!(Value::parse(""), Err("'' is not a valid brightness value".to_string()));
    assert_eq!(Value::parse("%"), Err("'%' is not a valid brightness value".to_string()));
    assert_eq!(Value::parse("5%%"), Err("'5%%' is not a valid brightness value".to_string()));
    assert_eq!("12".parse::<Value>(), Ok(Value::Absolute(12)));
}

#[test]
fn adjustments() {
    assert_eq!(Adjust::parse("300"), Ok(Adjust::Exactly(Value::Absolute(300))));
    assert_eq!(Adjust::parse("+10"), Ok(Adjust::Increase(Value::Absolute(10))));
    assert_eq!(Adjust::parse("-5%"), Ok(Adjust::Decrease(Value::Percent(5))));
    assert_eq!(Adjust::parse("++5"), Ok(Adjust::Increase(Value::Absolute(5))));
    assert_eq!(Adjust::parse("-+5%"), Ok(Adjust::Decrease(Value::Percent(5))));
    assert_eq!(Adjust::parse("+x"), Err("'x' is not a valid brightness value".to_string()));
    assert_eq!(Adjust::parse("-200%"), Err("'200%' exceeds 100%".to_string()));
    assert_eq!(Adjust::parse("--1"), Err("'-1' is not a valid brightness value".to_string()));
    assert_eq!("+1%".parse::<Adjust>(), Ok(Adjust::Increase(Value::Percent(1))));
}

#[test]
fn texts() {
    assert_eq!(Value::Absolute(300).to_text(), "300");
    assert_eq!(Value::Percent(50).to_text(), "50%");
    assert_eq!(Adjust::Exactly(Value::Percent(50)).to_text(), "50%");
    assert_eq!(Adjust::Increase(Value::Absolute(10)).to_text(), "+10");
    assert_eq!(Adjust::Decrease(Value::Percent(5)).to_text(), "-5%");
}

#[test]
fn texts_read_back() {
    let values = [Value::Absolute(0), Value::Absolute(96000), Value::Percent(0), Value::Percent(100), Value::Percent(33)];
    for v in values {
        assert_eq!(Value::parse(&v.to_text()), Ok(v));
        for a in [Adjust::Exactly(v), Adjust::Increase(v), Adjust::Decrease(v)] {
            assert_eq!(Adjust::parse(&a.to_text()), Ok(a));
        }
    }
}

#[test]
fn absolute_values() {
    assert_eq!(Value::Absolute(300).absolute(255), 300);
    assert_eq!(Value::Percent(50).absolute(255), 128);
    assert_eq!(Value::Percent(100).absolute(255), 255);
    assert_eq!(Value::Percent(0).absolute(255), 0);
    assert_eq!(Value::Percent(1).absolute(49), 0);
    assert_eq!(Value::Percent(1).absolute(50), 1);
}

#[test]
fn resolving() {
    assert_eq!(Adjust::Exactly(Value::Absolute(300)).resolve(10, 255), 255);
    assert_eq!(Adjust::Exactly(Value::Percent(50)).resolve(10, 255), 128);
    assert_eq!(Adjust::Increase(Value::Absolute(10)).resolve(250, 255), 255);
    assert_eq!(Adjust::Increase(Value::Absolute(10)).resolve(100, 255), 110);
    assert_eq!(Adjust::Increase(Value::Absolute(usize::MAX)).resolve(1, usize::MAX), usize::MAX);
    assert_eq!(Adjust::Decrease(Value::Percent(10)).resolve(10, 255), 0);
    assert_eq!(Adjust::Decrease(Value::Absolute(10)).resolve(100, 255), 90);
    assert_eq!(Adjust::Decrease(Value::Absolute(10)).resolve(300, 255), 255);
    assert_eq!(Adjust::Decrease(Value::Absolute(0)).resolve(200, 100), 100);
}

#[test]
fn resolving_stays_in_range() {
    let adjusts = [
        Adjust::Exactly(Value::Absolute(1000)),
        Adjust::Increase(Value::Percent(100)),
        Adjust::Decrease(Value::Percent(100)),
        Adjust::Increase(Value::Absolute(3)),
        Adjust::Decrease(Value::Absolute(3)),
    ];
    for a in adjusts {
        for current in 0..=300usize {
            let r = a.resolve(current, 255);
            assert!(r <= 255);
            if let Adjust::Decrease(_) = a {
                assert!(r <= current);
            }
            if let (Adjust::Increase(_), true) = (a, current <= 255) {
                assert!(r >= current);
            }
        }
    }
    assert_eq!(Adjust::Exactly(Value::Percent(40)).resolve(0, 255), Adjust::Exactly(Value::Percent(40)).resolve(200, 255));
}

#[test]
fn relative_adjustments() {
    assert!(!Adjust::Exactly(Value::Absolute(1)).is_relative());
    assert!(Adjust::Increase(Value::Absolute(1)).is_relative());
    assert!(Adjust::Decrease(Value::Percent(1)).is_relative());
}

#[test]
fn action_devices() {
    assert_eq!(Action::Info { device: Some("a".into()) }.device(), Some("a"));
    assert_eq!(Action::Get { device: None }.device(), None);
    assert_eq!(
        Action::SetBrightness { value: Adjust::Exactly(Value::Absolute(1)), device: Some("b".into()) }.device(),
        Some("b")
    );
    assert_eq!(Action::List.device(), None);
}
