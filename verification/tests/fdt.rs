use gunyah_vmm::fdt::{checked, checked_node, FdtError};
use vm_fdt::{Error, FdtWriter};

fn in_root() -> FdtWriter {
    let mut fdt = FdtWriter::new().unwrap();
    fdt.begin_node("").unwrap();
    fdt
}

#[test]
fn each_error_of_the_writer_keeps_its_name() {
    assert_eq!(checked(Err(Error::PropertyBeforeBeginNode)), Err(FdtError::PropertyBeforeBeginNode));
    assert_eq!(checked(Err(Error::PropertyAfterEndNode)), Err(FdtError::PropertyAfterEndNode));
    assert_eq!(checked(Err(Error::PropertyValueTooLarge)), Err(FdtError::PropertyValueTooLarge));
    assert_eq!(checked(Err(Error::TotalSizeTooLarge)), Err(FdtError::TotalSizeTooLarge));
    assert_eq!(checked(Err(Error::InvalidString)), Err(FdtError::InvalidString));
    assert_eq!(checked(Err(Error::OutOfOrderEndNode)), Err(FdtError::OutOfOrderEndNode));
    assert_eq!(checked(Err(Error::UnclosedNode)), Err(FdtError::UnclosedNode));
    assert_eq!(checked(Err(Error::InvalidMemoryReservation)), Err(FdtError::InvalidMemoryReservation));
    assert_eq!(
        checked(Err(Error::OverlappingMemoryReservations)),
        Err(FdtError::OverlappingMemoryReservations)
    );
    assert_eq!(checked(Err(Error::InvalidNodeName)), Err(FdtError::InvalidNodeName));
    assert_eq!(checked(Err(Error::InvalidPropertyName)), Err(FdtError::InvalidPropertyName));
    assert_eq!(checked(Err(Error::NodeDepthTooLarge)), Err(FdtError::NodeDepthTooLarge));
    assert_eq!(checked(Err(Error::DuplicatePhandle)), Err(FdtError::DuplicatePhandle));
    assert_eq!(checked(Ok(())), Ok(()));
}

#[test]
fn property_names_of_1_to_31_characters_of_the_set_are_taken() {
    let mut fdt = in_root();
    assert_eq!(checked(fdt.property_null("a")), Ok(()));
    assert_eq!(checked(fdt.property_null("0aZ,._+?#-")), Ok(()));
    let longest = "a".repeat(31);
    assert_eq!(checked(fdt.property_null(&longest)), Ok(()));
    let too_long = "a".repeat(32);
    assert_eq!(checked(fdt.property_null(&too_long)), Err(FdtError::InvalidPropertyName));
    assert_eq!(checked(fdt.property_null("")), Err(FdtError::InvalidPropertyName));
    assert_eq!(checked(fdt.property_null("a b")), Err(FdtError::InvalidPropertyName));
    assert_eq!(checked(fdt.property_null("a@b")), Err(FdtError::InvalidPropertyName));
    assert_eq!(checked(fdt.property_null("\u{e9}")), Err(FdtError::InvalidPropertyName));
    assert_eq!(checked(fdt.property_u32("a/b", 1)), Err(FdtError::InvalidPropertyName));
}

#[test]
fn node_names_with_at_most_one_unit_address_are_taken() {
    let mut fdt = in_root();
    for name in ["", "a", "cpu@0", "a@", "memory", "interrupt-controller@3fff0000", "a,._+-9@,._+-"] {
        let node = checked_node(fdt.begin_node(name));
        assert!(node.is_ok(), "{:?}", name);
        fdt.end_node(node.unwrap()).unwrap();
    }
    let longest = "a".repeat(31);
    let node = checked_node(fdt.begin_node(&longest)).unwrap();
    fdt.end_node(node).unwrap();
    let with_address = format!("{}@{}", longest, "1".repeat(40));
    let node = checked_node(fdt.begin_node(&with_address)).unwrap();
    fdt.end_node(node).unwrap();
    let too_long = "a".repeat(32);
    for name in [too_long.as_str(), "@0", "1a", "-a", "a@b@c", "a@@", "a?", "a#", "a b", "a@b c", "\u{e9}"] {
        assert_eq!(checked_node(fdt.begin_node(name)).err(), Some(FdtError::InvalidNodeName), "{:?}", name);
    }
}

#[test]
fn the_writer_names_the_first_fault_it_finds() {
    let mut fdt = FdtWriter::new().unwrap();
    assert_eq!(checked(fdt.property_null("bad name\0")), Err(FdtError::PropertyBeforeBeginNode));
    let root = fdt.begin_node("").unwrap();
    assert_eq!(checked(fdt.property_null("bad name\0")), Err(FdtError::InvalidString));
    assert_eq!(checked(fdt.property_string("bad name", "text\0")), Err(FdtError::InvalidString));
    assert_eq!(
        checked(fdt.property_string_list("bad name", vec!["a".to_string(), "b\0".to_string()])),
        Err(FdtError::InvalidString)
    );
    assert_eq!(checked(fdt.property_string("bad name", "text")), Err(FdtError::InvalidPropertyName));
    assert_eq!(checked_node(fdt.begin_node("bad name\0")).err(), Some(FdtError::InvalidString));
    let inner = fdt.begin_node("inner").unwrap();
    assert_eq!(checked(fdt.end_node(root)), Err(FdtError::OutOfOrderEndNode));
    fdt.end_node(inner).unwrap();
    assert_eq!(checked(fdt.property_string("name", "text\0")), Err(FdtError::InvalidString));
    assert_eq!(checked(fdt.property_null("bad name\0")), Err(FdtError::PropertyAfterEndNode));
    let again = fdt.begin_node("again").unwrap();
    assert_eq!(checked(fdt.property_u64("reg", 1)), Ok(()));
    assert_eq!(checked(fdt.property_u64("reg", 2)), Ok(()));
    fdt.end_node(again).unwrap();
    let mut deep = FdtWriter::new().unwrap();
    for _ in 0..64 {
        deep.begin_node("n").unwrap();
    }
    assert_eq!(checked_node(deep.begin_node("bad name\0")).err(), Some(FdtError::NodeDepthTooLarge));
    assert_eq!(deep.finish().err(), Some(Error::UnclosedNode));
}
