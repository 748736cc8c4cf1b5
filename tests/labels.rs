use viewport_canvas::{
    compose_label, decimal_string, fixed_label, label_form, scientific_label, LabelForm,
    FIXED_LABEL_WIDTH,
};

#[test]
fn form_by_exponent() {
    assert_eq!(label_form(None), LabelForm::Zero);
    assert_eq!(label_form(Some(4)), LabelForm::Scientific);
    assert_eq!(label_form(Some(30)), LabelForm::Scientific);
    assert_eq!(label_form(Some(3)), LabelForm::Fixed);
    assert_eq!(label_form(Some(0)), LabelForm::Fixed);
    assert_eq!(label_form(Some(-4)), LabelForm::Fixed);
    assert_eq!(label_form(Some(-5)), LabelForm::Scientific);
    assert_eq!(label_form(Some(-6)), LabelForm::Scientific);
    assert_eq!(label_form(Some(-7)), LabelForm::Zero);
}

#[test]
fn decimal_text_of_integers() {
    assert_eq!(decimal_string(0), "0");
    assert_eq!(decimal_string(4), "4");
    assert_eq!(decimal_string(-5), "-5");
    assert_eq!(decimal_string(1234), "1234");
    assert_eq!(decimal_string(i32::MIN), "-2147483648");
    assert_eq!(decimal_string(i32::MAX), "2147483647");
}

#[test]
fn large_number_is_scientific() {
    // 12345.0: mantissa 1.23, exponent 4
    assert_eq!(compose_label(false, Some(4), "1.23", "12345.000000"), "1.23e4");
    assert_eq!(compose_label(true, Some(4), "1.23", "12345.000000"), "-1.23e4");
}

#[test]
fn tiny_number_is_scientific() {
    // 0.00005: mantissa 5.00, exponent -5
    assert_eq!(compose_label(false, Some(-5), "5.00", "0.000050"), "5.00e-5");
    assert_eq!(scientific_label(true, "1.50", -6), "-1.50e-6");
}

#[test]
fn fixed_form_is_cut_to_width() {
    assert_eq!(FIXED_LABEL_WIDTH, 5);
    // 3.14159
    assert_eq!(compose_label(false, Some(0), "3.14", "3.141590"), "3.141");
    assert_eq!(compose_label(true, Some(0), "3.14", "3.141590"), "-3.14");
    assert_eq!(fixed_label(false, "0.000100"), "0.000");
    assert_eq!(fixed_label(false, "12.500000"), "12.50");
    assert_eq!(fixed_label(false, "1000.000000"), "1000");
}

#[test]
fn fixed_form_drops_trailing_point() {
    assert_eq!(fixed_label(false, "123.400000"), "123.4");
    assert_eq!(fixed_label(true, "123.400000"), "-123");
    assert_eq!(fixed_label(true, "1234.500000"), "-1234");
    assert_eq!(fixed_label(false, "12.."), "12");
    assert_eq!(fixed_label(false, "7"), "7");
}

#[test]
fn below_smallest_shown_is_zero() {
    assert_eq!(compose_label(true, Some(-8), "3.00", "0.000000"), "0");
    assert_eq!(compose_label(false, None, "0.00", "0.000000"), "0");
}
