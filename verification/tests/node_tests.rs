use dts::attribute::Attribute;
use dts::attribute::AttributeValue;
use dts::node::Node;

#[test]
fn test_simple_node() {
    let attr = Attribute::new("attr1", AttributeValue::U32(42u32));
    let mut node = Node::new("node");
    node.add_attr(attr);
    node.add_attr(Attribute::new("attr2", AttributeValue::U32(12.3456f32 as u32)));
    println!("Node: {}", node.to_dts(0));
}

#[test]
fn test_sub_node() {
    let attr = Attribute::new("attr1", AttributeValue::U32(42u32));
    let mut node = Node::new("node1");
    node.add_attr(attr);
    node.add_attr(Attribute::new("attr12", AttributeValue::U32(12.3456f32 as u32)));

    let mut sub_node = Node::new("node2");
    sub_node.add_attr(Attribute::new("attr3", AttributeValue::U32(56.78f32 as u32)));
    sub_node.add_attr(Attribute::new("attr4", AttributeValue::U32(99u32)));

    node.add_sub_node(sub_node);
    println!("Node: {}", node.to_dts(0));
}

#[test]
fn test_empty_root_node() {
    let node = Node::new("");
    assert_eq!(node.to_dts(0), "/ {\n};\n");
}

#[test]
fn test_empty_named_node() {
    let node = Node::new("memory");
    assert_eq!(node.to_dts(0), "memory {\n};\n");
}

#[test]
fn test_node_indent_level() {
    let node = Node::new("leaf");
    assert_eq!(node.to_dts(2), "\t\tleaf {\n\t\t};\n");
}

#[test]
fn test_attr_insertion_order() {
    let mut node = Node::new("n");
    node.add_attr(Attribute::new("b", AttributeValue::U32(2)));
    node.add_attr(Attribute::new("a", AttributeValue::U32(1)));
    node.add_attr(Attribute::new("c", AttributeValue::Empty));
    assert_eq!(node.to_dts(0), "n {\n\tb = <0x2>;\n\ta = <0x1>;\n\tc;\n};\n");
}

#[test]
fn test_duplicate_attr_names_all_emitted() {
    let mut node = Node::new("n");
    node.add_attr(Attribute::new("same", AttributeValue::U32(1)));
    node.add_attr(Attribute::new("same", AttributeValue::U32(2)));
    assert_eq!(node.to_dts(0), "n {\n\tsame = <0x1>;\n\tsame = <0x2>;\n};\n");
}

#[test]
fn test_attrs_before_children() {
    let mut node = Node::new("n");
    node.add_sub_node(Node::new("child"));
    node.add_attr(Attribute::new("late", AttributeValue::Empty));
    // The attribute was added after the child, yet its line comes first.
    assert_eq!(node.to_dts(0), "n {\n\tlate;\n\tchild {\n\t};\n};\n");
}

#[test]
fn test_child_order_depth_first() {
    let mut first = Node::new("first");
    first.add_sub_node(Node::new("grandchild"));
    let second = Node::new("second");
    let mut root = Node::new("parent");
    root.add_sub_node(first);
    root.add_sub_node(second);
    // The first child's whole block, grandchild included, is closed
    // before the second child's block begins.
    assert_eq!(
        root.to_dts(0),
        "parent {\n\tfirst {\n\t\tgrandchild {\n\t\t};\n\t};\n\tsecond {\n\t};\n};\n"
    );
}

#[test]
fn test_render_twice_identical() {
    let mut node = Node::new("n");
    node.add_attr(Attribute::new("a", AttributeValue::U32(7)));
    node.add_sub_node(Node::new("c"));
    let once = node.to_dts(0);
    let twice = node.to_dts(0);
    assert_eq!(once, twice);
}
