use bahttext::baht_text;

fn read(x: f64) -> String {
    baht_text(&format!("{:.2}", x)).unwrap()
}

#[test]
fn baht_text_test_bath_text() {
    let bath_text = "หนึ่งร้อยบาทยี่สิบห้าสตางค์";
    assert_eq!(bath_text, read(100.25));
}

#[test]
fn lib_test_bath_text() {
    let bath_text = "หนึ่งร้อยบาทยี่สิบห้าสตางค์";
    assert_eq!(bath_text, read(100.25));
}

#[test]
fn test_input_is_a_number_and_convert_to_string() {
    let bath_text = "ห้าสิบบาทถ้วน";
    assert_eq!(bath_text, read(50.0));
}

#[test]
fn test_input_integer_one_digit_can_convert() {
    assert_eq!(read(0.0), "ศูนย์บาทถ้วน");
    assert_eq!(read(1.00), "หนึ่งบาทถ้วน");
    assert_eq!(read(2.0), "สองบาทถ้วน");
    assert_eq!(read(5.00), "ห้าบาทถ้วน");
}

#[test]
fn test_number_in_multiple_could_show_word_sip() {
    assert_eq!(read(10.0), "สิบบาทถ้วน");
    assert_eq!(read(20.0), "ยี่สิบบาทถ้วน");
    assert_eq!(read(30.0), "สามสิบบาทถ้วน");
    assert_eq!(read(40.0), "สี่สิบบาทถ้วน");
    assert_eq!(read(50.0), "ห้าสิบบาทถ้วน");
    assert_eq!(read(11.0), "สิบเอ็ดบาทถ้วน");
    assert_eq!(read(21.0), "ยี่สิบเอ็ดบาทถ้วน");
    assert_eq!(read(32.0), "สามสิบสองบาทถ้วน");
    assert_eq!(read(15.0), "สิบห้าบาทถ้วน");
}

#[test]
fn test_input_one_integer_with_decimal_can_convert() {
    assert_eq!(read(1.10), "หนึ่งบาทสิบสตางค์");
    assert_eq!(read(1.01), "หนึ่งบาทหนึ่งสตางค์");
    assert_eq!(read(2.21), "สองบาทยี่สิบเอ็ดสตางค์");
    assert_eq!(read(4.99), "สี่บาทเก้าสิบเก้าสตางค์");
    assert_eq!(read(5.81), "ห้าบาทแปดสิบเอ็ดสตางค์");
}

#[test]
fn test_number_hundred_should_show_roi() {
    assert_eq!(read(100.0), "หนึ่งร้อยบาทถ้วน");
    assert_eq!(read(101.0), "หนึ่งร้อยหนึ่งบาทถ้วน");
    assert_eq!(read(200.0), "สองร้อยบาทถ้วน");
    assert_eq!(read(201.0), "สองร้อยหนึ่งบาทถ้วน");
}

#[test]
fn test_number_thousand_should_show_pan() {
    assert_eq!(read(1000.0), "หนึ่งพันบาทถ้วน");
    assert_eq!(read(1001.0), "หนึ่งพันหนึ่งบาทถ้วน");
    assert_eq!(read(2000.0), "สองพันบาทถ้วน");
    assert_eq!(read(2001.0), "สองพันหนึ่งบาทถ้วน");
}

#[test]
fn test_number_ten_thousand_should_show_muern() {
    assert_eq!(read(10000.0), "หนึ่งหมื่นบาทถ้วน");
    assert_eq!(read(10001.0), "หนึ่งหมื่นหนึ่งบาทถ้วน");
    assert_eq!(read(20000.0), "สองหมื่นบาทถ้วน");
    assert_eq!(read(20001.0), "สองหมื่นหนึ่งบาทถ้วน");
}

#[test]
fn test_number_hundred_thousand_should_show_saan() {
    assert_eq!(read(100000.0), "หนึ่งแสนบาทถ้วน");
    assert_eq!(read(100001.0), "หนึ่งแสนหนึ่งบาทถ้วน");
    assert_eq!(read(200000.0), "สองแสนบาทถ้วน");
    assert_eq!(read(200001.0), "สองแสนหนึ่งบาทถ้วน");
}

#[test]
fn test_number_million_should_show_larn() {
    assert_eq!(read(1000000.0), "หนึ่งล้านบาทถ้วน");
    assert_eq!(read(1000001.0), "หนึ่งล้านหนึ่งบาทถ้วน");
    assert_eq!(read(2000000.0), "สองล้านบาทถ้วน");
    assert_eq!(read(2000001.0), "สองล้านหนึ่งบาทถ้วน");
}

#[test]
fn test_number_multiple_million_should_show_multiple_laan() {
    assert_eq!(read(12000000.0), "สิบสองล้านบาทถ้วน");
    assert_eq!(read(12000000.00), "สิบสองล้านบาทถ้วน");
    assert_eq!(read(21000000.0), "ยี่สิบเอ็ดล้านบาทถ้วน");
    assert_eq!(read(21000000.00), "ยี่สิบเอ็ดล้านบาทถ้วน");
    assert_eq!(read(51000000000000.51), "ห้าสิบเอ็ดล้านล้านบาทห้าสิบเอ็ดสตางค์");
    assert_eq!(read(10000000680000.51), "สิบล้านล้านหกแสนแปดหมื่นบาทห้าสิบเอ็ดสตางค์");
}

#[test]
fn test_negative_number_prefix_should_display_lob() {
    assert_eq!(read(-1.0), "ลบหนึ่งบาทถ้วน");
    assert_eq!(read(-10.0), "ลบสิบบาทถ้วน");
    assert_eq!(read(-100.0), "ลบหนึ่งร้อยบาทถ้วน");
    assert_eq!(read(-1000.0), "ลบหนึ่งพันบาทถ้วน");
    assert_eq!(read(-10000.0), "ลบหนึ่งหมื่นบาทถ้วน");
    assert_eq!(read(-100000.0), "ลบหนึ่งแสนบาทถ้วน");
    assert_eq!(read(-1000000.0), "ลบหนึ่งล้านบาทถ้วน");
    assert_eq!(read(-10000000.0), "ลบสิบล้านบาทถ้วน");
    assert_eq!(read(-100000000.0), "ลบหนึ่งร้อยล้านบาทถ้วน");
    assert_eq!(read(-1000000000.0), "ลบหนึ่งพันล้านบาทถ้วน");
}
