use dts::attribute::Attribute;
use dts::attribute::AttributeValue;

#[test]
fn test_empty_attr_fragment() {
    let a = Attribute::new("dma-coherent", AttributeValue::Empty);
    assert_eq!(a.to_dts(), "dma-coherent;");
}

#[test]
fn test_string_attr_fragment() {
    let a = Attribute::new("device_type", AttributeValue::Str(String::from("cpu")));
    assert_eq!(a.to_dts(), "device_type = \"cpu\";");
}

#[test]
fn test_empty_string_attr_fragment() {
    let a = Attribute::new("label", AttributeValue::Str(String::new()));
    assert_eq!(a.to_dts(), "label = \"\";");
}

#[test]
fn test_string_list_fragment() {
    let items = vec![String::from("linux,dummy-virt"), String::from("arm,arm-v8")];
    let a = Attribute::new("compatible", AttributeValue::StrList(items));
    assert_eq!(a.to_dts(), "compatible = \"linux,dummy-virt\", \"arm,arm-v8\";");
}

#[test]
fn test_single_string_list_fragment() {
    let a = Attribute::new(
        "compatible",
        AttributeValue::StrList(vec![String::from("linux,dummy-virt")]),
    );
    assert_eq!(a.to_dts(), "compatible = \"linux,dummy-virt\";");
}

#[test]
fn test_empty_string_list_fragment() {
    let a = Attribute::new("compatible", AttributeValue::StrList(Vec::new()));
    assert_eq!(a.to_dts(), "compatible = ;");
}

#[test]
fn test_u32_fragment_small() {
    let a = Attribute::new("#address-cells", AttributeValue::U32(2));
    assert_eq!(a.to_dts(), "#address-cells = <0x2>;");
}

#[test]
fn test_u32_fragment_zero() {
    let a = Attribute::new("cell", AttributeValue::U32(0));
    assert_eq!(a.to_dts(), "cell = <0x0>;");
}

#[test]
fn test_u32_fragment_max() {
    let a = Attribute::new("cell", AttributeValue::U32(u32::MAX));
    assert_eq!(a.to_dts(), "cell = <0xffffffff>;");
}

#[test]
fn test_u32_fragment_mixed_digits() {
    let a = Attribute::new("cell", AttributeValue::U32(0xbfff0000));
    assert_eq!(a.to_dts(), "cell = <0xbfff0000>;");
}

#[test]
fn test_u32_list_fragment() {
    let a = Attribute::new("reg", AttributeValue::U32List(vec![0, 0x40000000, 1, 0]));
    assert_eq!(a.to_dts(), "reg = <0x0 0x40000000 0x1 0x0>;");
}

#[test]
fn test_empty_u32_list_fragment() {
    let a = Attribute::new("reg", AttributeValue::U32List(Vec::new()));
    assert_eq!(a.to_dts(), "reg = <>;");
}
