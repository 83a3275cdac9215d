use trading23::bar::day_number;
use trading23::live::calendar_month;
use trading23::market::Symbol;
use trading23::regime::weekday;

#[test]
fn test_float() {
    let a = 142.3466;
    let pips = 1_f64 / 0.01;
    let b = (a * pips).round() / pips;
    assert_eq!(b, 142.35);
    let c = 1.252244;
    let pips2 = 1_f64 / 0.0001;
    let d = (c * pips2).round() / pips2;
    assert_eq!(d, 1.2522);
}

#[test]
fn test_symbol() {
    let str = "USD_JPY";
    let symbol = Symbol::from_name(str).unwrap();
    assert_eq!(symbol.to_string(), str);
}

#[test]
fn test_boolean() {
    let a = true;

    assert_eq!("true", a.to_string())
}

#[test]
fn test_weekday() {
    let today = day_number("2023-12-06").unwrap();
    // 0 is Monday: 2023-12-06 is a Wednesday
    assert_eq!(weekday(today), 2)
}

#[test]
fn test_chrono_parse() {
    let file_name = "2021-01-01";
    let datetime = day_number(file_name).unwrap();
    assert_eq!(calendar_month(datetime).unwrap().0, 2021);
}
