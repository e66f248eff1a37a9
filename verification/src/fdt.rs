//! The device tree writer of the `vm_fdt` crate, as the rest of the library
//! sees it: a log of the nodes and properties that were written so far.

use vstd::prelude::*;
use vm_fdt::FdtWriter;
use vm_fdt::FdtWriterNode;
use vm_fdt::Error as FdtWriterError;

verus! {

#[verifier::external_type_specification]
#[verifier::external_body]
pub struct ExFdtWriter(vm_fdt::FdtWriter);

#[verifier::external_type_specification]
#[verifier::external_body]
pub struct ExFdtWriterNode(vm_fdt::FdtWriterNode);

#[verifier::external_type_specification]
#[verifier::external_body]
pub struct ExFdtWriterError(FdtWriterError);

/// One thing that was put into a device tree writer.
pub enum FdtItem {
    /// A memory reservation that the writer was made with.
    Reserved { address: u64, size: u64 },
    /// The physical id of the boot CPU, where one was set.
    BootCpu { id: u32 },
    /// The start of a node with this name.
    BeginNode { name: Seq<char> },
    /// The end of the node that was begun last and is still open.
    EndNode,
    /// A property of the open node, with the bytes of its value.
    Property { name: Seq<char>, value: Seq<u8> },
}

/// What `writer` holds: the memory reservations that it was made with, the
/// id of the boot CPU where one was set, and then the nodes and properties
/// that were written into it, in the order in which they were written. The
/// library makes its writers without reservations and sets no boot CPU, and
/// every call that it makes appends a node's start, a node's end or a
/// property. What the writer keeps beside them follows from them: how many
/// nodes are open (`open_nodes`), whether a node was ended since the last was
/// begun (`node_ended`), and the names of the properties (`strings_len`).
pub uninterp spec fn fdt_items(writer: FdtWriter) -> Seq<FdtItem>;

/// The bytes of `v`, most significant first.
pub open spec fn be_u32(v: u32) -> Seq<u8> {
    seq![
        (v / 0x100_0000) as u8,
        (v / 0x1_0000 % 0x100) as u8,
        (v / 0x100 % 0x100) as u8,
        (v % 0x100) as u8,
    ]
}

/// The bytes of `v`, most significant first.
pub open spec fn be_u64(v: u64) -> Seq<u8> {
    be_u32((v / 0x1_0000_0000) as u32) + be_u32((v % 0x1_0000_0000) as u32)
}

/// The cells one after the other, each with its most significant byte first.
pub open spec fn be_u32_cells(cells: Seq<u32>) -> Seq<u8>
    decreases cells.len(),
{
    if cells.len() == 0 {
        Seq::empty()
    } else {
        be_u32_cells(cells.drop_last()) + be_u32(cells.last())
    }
}

/// The cells one after the other, each with its most significant byte first.
pub open spec fn be_u64_cells(cells: Seq<u64>) -> Seq<u8>
    decreases cells.len(),
{
    if cells.len() == 0 {
        Seq::empty()
    } else {
        be_u64_cells(cells.drop_last()) + be_u64(cells.last())
    }
}

/// The value of a string property: the UTF-8 bytes of `s` and a NUL.
pub open spec fn string_value(s: Seq<char>) -> Seq<u8> {
    vstd::utf8::encode_utf8(s).push(0u8)
}

/// The value of a string list property: each string as in `string_value`.
pub open spec fn string_list_value(values: Seq<String>) -> Seq<u8>
    decreases values.len(),
{
    if values.len() == 0 {
        Seq::empty()
    } else {
        string_list_value(values.drop_last()) + string_value(values.last()@)
    }
}

/// Why the device tree writer refused a call: the errors of `vm_fdt`, one
/// for one.
#[derive(Copy, Clone, Debug, PartialEq, Eq, Structural)]
pub enum FdtError {
    PropertyBeforeBeginNode,
    PropertyAfterEndNode,
    PropertyValueTooLarge,
    TotalSizeTooLarge,
    InvalidString,
    OutOfOrderEndNode,
    UnclosedNode,
    InvalidMemoryReservation,
    OverlappingMemoryReservations,
    InvalidNodeName,
    InvalidPropertyName,
    NodeDepthTooLarge,
    DuplicatePhandle,
}

/// The error of the library that stands for an error of `vm_fdt`: the
/// variant of the same name.
pub uninterp spec fn fdt_error_of(e: FdtWriterError) -> FdtError;

/// Tells the variants of `vm_fdt::Error` apart: the result is the variant of
/// the same name, which the wrappers of the writer's calls speak of.
#[verifier::external_body]
pub(crate) fn fdt_error(e: FdtWriterError) -> (r: FdtError)
    ensures
        r == fdt_error_of(e),
{
    match e {
        FdtWriterError::PropertyBeforeBeginNode => FdtError::PropertyBeforeBeginNode,
        FdtWriterError::PropertyAfterEndNode => FdtError::PropertyAfterEndNode,
        FdtWriterError::PropertyValueTooLarge => FdtError::PropertyValueTooLarge,
        FdtWriterError::TotalSizeTooLarge => FdtError::TotalSizeTooLarge,
        FdtWriterError::InvalidString => FdtError::InvalidString,
        FdtWriterError::OutOfOrderEndNode => FdtError::OutOfOrderEndNode,
        FdtWriterError::UnclosedNode => FdtError::UnclosedNode,
        FdtWriterError::InvalidMemoryReservation => FdtError::InvalidMemoryReservation,
        FdtWriterError::OverlappingMemoryReservations => FdtError::OverlappingMemoryReservations,
        FdtWriterError::InvalidNodeName => FdtError::InvalidNodeName,
        FdtWriterError::InvalidPropertyName => FdtError::InvalidPropertyName,
        FdtWriterError::NodeDepthTooLarge => FdtError::NodeDepthTooLarge,
        FdtWriterError::DuplicatePhandle => FdtError::DuplicatePhandle,
    }
}

/// The error with which `vm_fdt::FdtWriter::finish` refuses a writer that
/// holds `items`: a node is open, or else the blob's size does not fit in 32
/// bits.
pub open spec fn finish_refusal(items: Seq<FdtItem>) -> FdtError {
    if open_nodes(items) > 0 {
        FdtError::UnclosedNode
    } else {
        FdtError::TotalSizeTooLarge
    }
}

/// What `vm_fdt::FdtWriter::finish` makes of a writer that holds `items`:
/// the flattened device tree, or nothing where it refuses.
pub uninterp spec fn fdt_blob(items: Seq<FdtItem>) -> Option<Seq<u8>>;

/// `vm_fdt::FdtWriter::finish`: the flattened device tree of what the writer
/// holds. What the writer holds decides the blob, and whether there is one:
/// there is none while a node is open, nor where the blob's size does not
/// fit in 32 bits; the error says which of the two it was.
#[verifier::external_body]
pub(crate) fn fdt_finish(fdt: FdtWriter) -> (r: Result<Vec<u8>, FdtWriterError>)
    ensures
        r matches Ok(blob) ==> fdt_blob(fdt_items(fdt)) == Some(blob@),
        r is Err ==> fdt_blob(fdt_items(fdt)) is None,
        open_nodes(fdt_items(fdt)) > 0 ==> r is Err,
        r matches Err(e) ==> fdt_error_of(e) == finish_refusal(fdt_items(fdt)),
{
    fdt.finish()
}

/// `vm_fdt::FdtWriter::new`: a writer without memory reservations into which
/// nothing was written yet. Without reservations the call cannot fail.
#[verifier::external_body]
pub(crate) fn fdt_new() -> (r: Result<FdtWriter, FdtWriterError>)
    ensures
        r is Ok,
        r matches Ok(w) ==> fdt_items(w).len() == 0,
{
    FdtWriter::new()
}

/// How many nodes are open in a writer that holds `items`: the nodes that
/// were begun, less those that were ended.
pub open spec fn open_nodes(items: Seq<FdtItem>) -> int
    decreases items.len(),
{
    if items.len() == 0 {
        0
    } else {
        open_nodes(items.drop_last()) + match items.last() {
            FdtItem::BeginNode { .. } => 1int,
            FdtItem::EndNode => -1int,
            _ => 0int,
        }
    }
}

/// Whether the writer that holds `items` has ended a node since it last
/// began one. Such a writer takes no property until it begins a node again.
pub open spec fn node_ended(items: Seq<FdtItem>) -> bool
    decreases items.len(),
{
    if items.len() == 0 {
        false
    } else {
        match items.last() {
            FdtItem::BeginNode { .. } => false,
            FdtItem::EndNode => true,
            _ => node_ended(items.drop_last()),
        }
    }
}

/// Whether `items` hold a property named `name`. The writer keeps each name
/// of a property once.
pub open spec fn has_property(items: Seq<FdtItem>, name: Seq<char>) -> bool {
    exists|i: int|
        0 <= i < items.len() && (#[trigger] items[i]) is Property && items[i]->Property_name == name
}

/// The number of bytes that the writer that holds `items` keeps for the
/// names of properties: each name once, in UTF-8 and with a NUL after it.
pub open spec fn strings_len(items: Seq<FdtItem>) -> nat
    decreases items.len(),
{
    if items.len() == 0 {
        0
    } else {
        strings_len(items.drop_last()) + match items.last() {
            FdtItem::Property { name, .. } => if has_property(items.drop_last(), name) {
                0nat
            } else {
                vstd::utf8::encode_utf8(name).len() + 1
            },
            _ => 0nat,
        }
    }
}

/// Whether a text is free of NUL.
pub open spec fn no_nul(text: Seq<char>) -> bool {
    forall|i: int| 0 <= i < text.len() ==> #[trigger] text[i] != '\0'
}

/// Whether each of the strings is free of NUL.
pub open spec fn all_no_nul(values: Seq<String>) -> bool {
    forall|i: int| 0 <= i < values.len() ==> no_nul(#[trigger] values[i]@)
}

/// The most nodes that a writer lets be open at a time.
pub const FDT_MAX_NODE_DEPTH: usize = 64;

/// The most characters in the name of a property, and in the name of a node
/// before its unit address.
pub const FDT_NAME_MAX_LEN: usize = 31;

/// An ASCII letter.
pub open spec fn ascii_letter(c: char) -> bool {
    ('a' <= c && c <= 'z') || ('A' <= c && c <= 'Z')
}

/// An ASCII letter or digit.
pub open spec fn ascii_letter_or_digit(c: char) -> bool {
    ascii_letter(c) || ('0' <= c && c <= '9')
}

/// A character that `vm_fdt` takes in the name of a node and in its unit
/// address.
pub open spec fn node_name_char(c: char) -> bool {
    ascii_letter_or_digit(c) || c == ',' || c == '.' || c == '_' || c == '+' || c == '-'
}

/// A character that `vm_fdt` takes in the name of a property.
pub open spec fn property_name_char(c: char) -> bool {
    node_name_char(c) || c == '?' || c == '#'
}

/// Whether `name` is the name of a node that ends at index `at`, where the
/// text ends or `@` and a unit address follow: the name has 1 to 31
/// characters and starts with a letter, and the name and the unit address
/// are made of the characters that `vm_fdt` takes there.
pub open spec fn node_name_ends_at(name: Seq<char>, at: int) -> bool {
    &&& 1 <= at <= name.len()
    &&& at <= FDT_NAME_MAX_LEN
    &&& at < name.len() ==> name[at] == '@'
    &&& ascii_letter(name[0])
    &&& forall|i: int| 0 <= i < name.len() && i != at ==> node_name_char(#[trigger] name[i])
}

/// Whether `vm_fdt` takes `name` as the name of a node. The empty name is
/// taken. Any other is a name and, if the writer so chooses, `@` and a unit
/// address after it.
pub open spec fn fdt_node_name_valid(name: Seq<char>) -> bool {
    name.len() == 0 || exists|at: int| node_name_ends_at(name, at)
}

/// Whether `vm_fdt` takes `name` as the name of a property: 1 to 31
/// characters of those it takes there.
pub open spec fn fdt_property_name_valid(name: Seq<char>) -> bool {
    &&& 1 <= name.len() <= FDT_NAME_MAX_LEN
    &&& forall|i: int| 0 <= i < name.len() ==> property_name_char(#[trigger] name[i])
}

/// How many nodes were open, the node itself among them, when `node` was
/// begun: the depth that the node's handle holds.
pub uninterp spec fn fdt_node_depth(node: FdtWriterNode) -> int;

/// Whether a writer that holds `items` has room for a property named `name`
/// with a value of `value_len` bytes: a node is open and none was ended since
/// it was begun; the name is free of NUL; the value's length fits in 32 bits;
/// and so does the length of the names kept so far, where the name is new.
pub open spec fn takes_property(items: Seq<FdtItem>, name: Seq<char>, value_len: nat) -> bool {
    &&& !node_ended(items)
    &&& open_nodes(items) > 0
    &&& no_nul(name)
    &&& value_len <= u32::MAX
    &&& (has_property(items, name) || strings_len(items) <= u32::MAX)
}

/// The error with which a writer that holds `items` refuses the start of a
/// node named `name`, in the order in which it looks: too many nodes are
/// open; the name holds a NUL; the name is not valid for a node.
pub open spec fn begin_refusal(items: Seq<FdtItem>, name: Seq<char>) -> FdtError {
    if open_nodes(items) >= FDT_MAX_NODE_DEPTH {
        FdtError::NodeDepthTooLarge
    } else if !no_nul(name) {
        FdtError::InvalidString
    } else {
        FdtError::InvalidNodeName
    }
}

/// The error with which a writer that holds `items` refuses a property named
/// `name` with a value of `value_len` bytes, in the order in which it looks:
/// a node was ended and none begun since; no node is open; the name holds a
/// NUL; the name is not valid for a property; the value's length does not
/// fit in 32 bits; the length of the names kept so far does not.
pub open spec fn property_refusal(items: Seq<FdtItem>, name: Seq<char>, value_len: nat) -> FdtError {
    if node_ended(items) {
        FdtError::PropertyAfterEndNode
    } else if open_nodes(items) <= 0 {
        FdtError::PropertyBeforeBeginNode
    } else if !no_nul(name) {
        FdtError::InvalidString
    } else if !fdt_property_name_valid(name) {
        FdtError::InvalidPropertyName
    } else if value_len > u32::MAX {
        FdtError::PropertyValueTooLarge
    } else {
        FdtError::TotalSizeTooLarge
    }
}

/// The error with which a writer that holds `items` refuses a property whose
/// value is made of texts: a text that holds a NUL is found first, where
/// `texts_free` says that there is none, the property is looked at.
pub open spec fn text_property_refusal(
    items: Seq<FdtItem>,
    name: Seq<char>,
    value_len: nat,
    texts_free: bool,
) -> FdtError {
    if texts_free {
        property_refusal(items, name, value_len)
    } else {
        FdtError::InvalidString
    }
}

/// `vm_fdt::FdtWriter::begin_node`: succeeds where fewer than 64 nodes are
/// open, the name is free of NUL and the name is valid for a node. On success
/// the start of a node named `name` was appended, and the handle holds the
/// number of nodes that are open then. On failure nothing was written, and
/// the error is the first that `begin_refusal` names.
#[verifier::external_body]
pub(crate) fn fdt_begin_node(fdt: &mut FdtWriter, name: &str) -> (r: Result<FdtWriterNode, FdtWriterError>)
    ensures
        r is Ok == (open_nodes(fdt_items(*old(fdt))) < FDT_MAX_NODE_DEPTH && no_nul(name@)
            && fdt_node_name_valid(name@)),
        r is Ok ==> fdt_items(*final(fdt)) == fdt_items(*old(fdt)).push(FdtItem::BeginNode { name: name@ }),
        r matches Ok(node) ==> fdt_node_depth(node) == open_nodes(fdt_items(*final(fdt))) && fdt_node_depth(
            node,
        ) >= 1,
        r is Err ==> fdt_items(*final(fdt)) == fdt_items(*old(fdt)),
        r matches Err(e) ==> fdt_error_of(e) == begin_refusal(fdt_items(*old(fdt)), name@),
{
    fdt.begin_node(name)
}

/// `vm_fdt::FdtWriter::end_node`: succeeds where the handle's node is the
/// innermost open one, that is where as many nodes are open as when it was
/// begun. On success the end of the node was appended. On failure nothing was
/// written, and the error is `OutOfOrderEndNode`.
#[verifier::external_body]
pub(crate) fn fdt_end_node(fdt: &mut FdtWriter, node: FdtWriterNode) -> (r: Result<(), FdtWriterError>)
    ensures
        r is Ok == (fdt_node_depth(node) == open_nodes(fdt_items(*old(fdt)))),
        r is Ok ==> fdt_items(*final(fdt)) == fdt_items(*old(fdt)).push(FdtItem::EndNode),
        r is Err ==> fdt_items(*final(fdt)) == fdt_items(*old(fdt)),
        r matches Err(e) ==> fdt_error_of(e) == FdtError::OutOfOrderEndNode,
{
    fdt.end_node(node)
}

/// `vm_fdt::FdtWriter::property_null`: succeeds where the writer has room
/// for the property (`takes_property`) and the name is valid for a property.
/// On success a property without a value was appended. On failure nothing
/// was written.
/// The error of a failure is the first that `property_refusal` names.
#[verifier::external_body]
pub(crate) fn fdt_property_null(fdt: &mut FdtWriter, name: &str) -> (r: Result<(), FdtWriterError>)
    ensures
        r is Ok == (takes_property(fdt_items(*old(fdt)), name@, 0) && fdt_property_name_valid(name@)),
        r is Ok ==> fdt_items(*final(fdt)) == fdt_items(*old(fdt)).push(null_item(name@)),
        r is Err ==> fdt_items(*final(fdt)) == fdt_items(*old(fdt)),
        r matches Err(e) ==> fdt_error_of(e) == property_refusal(fdt_items(*old(fdt)), name@, 0),
{
    fdt.property_null(name)
}

/// `vm_fdt::FdtWriter::property_string`: succeeds where `val` is free of NUL,
/// the writer has room for the property and the name is valid for a
/// property. On success a property was appended whose value is the UTF-8
/// bytes of `val` and a NUL. On failure nothing was written.
/// The error of a failure is `InvalidString` where `val` holds a NUL, else
/// the first that `property_refusal` names.
#[verifier::external_body]
pub(crate) fn fdt_property_string(fdt: &mut FdtWriter, name: &str, val: &str) -> (r: Result<
    (),
    FdtWriterError,
>)
    ensures
        r is Ok == (no_nul(val@) && takes_property(fdt_items(*old(fdt)), name@, string_value(val@).len())
            && fdt_property_name_valid(name@)),
        r is Ok ==> fdt_items(*final(fdt)) == fdt_items(*old(fdt)).push(string_item(name@, val@)),
        r is Err ==> fdt_items(*final(fdt)) == fdt_items(*old(fdt)),
        r matches Err(e) ==> fdt_error_of(e) == text_property_refusal(
            fdt_items(*old(fdt)),
            name@,
            string_value(val@).len(),
            no_nul(val@),
        ),
{
    fdt.property_string(name, val)
}

/// `vm_fdt::FdtWriter::property_string_list`: succeeds where each string is
/// free of NUL, the writer has room for the property and the name is valid
/// for a property. On success a property was appended whose value is the
/// strings of `values`, each followed by a NUL. On failure nothing was
/// written.
/// The error of a failure is `InvalidString` where a string holds a NUL,
/// else the first that `property_refusal` names.
#[verifier::external_body]
pub(crate) fn fdt_property_string_list(fdt: &mut FdtWriter, name: &str, values: Vec<String>) -> (r:
    Result<(), FdtWriterError>)
    ensures
        r is Ok == (all_no_nul(values@) && takes_property(
            fdt_items(*old(fdt)),
            name@,
            string_list_value(values@).len(),
        ) && fdt_property_name_valid(name@)),
        r is Ok ==> fdt_items(*final(fdt)) == fdt_items(*old(fdt)).push(
            FdtItem::Property { name: name@, value: string_list_value(values@) },
        ),
        r is Err ==> fdt_items(*final(fdt)) == fdt_items(*old(fdt)),
        r matches Err(e) ==> fdt_error_of(e) == text_property_refusal(
            fdt_items(*old(fdt)),
            name@,
            string_list_value(values@).len(),
            all_no_nul(values@),
        ),
{
    fdt.property_string_list(name, values)
}

/// `vm_fdt::FdtWriter::property_u32`: succeeds where the writer has room for
/// the property and the name is valid for a property. On success a property
/// was appended whose value is the four bytes of `val`, most significant
/// first. On failure nothing was written.
/// The error of a failure is the first that `property_refusal` names.
#[verifier::external_body]
pub(crate) fn fdt_property_u32(fdt: &mut FdtWriter, name: &str, val: u32) -> (r: Result<(), FdtWriterError>)
    ensures
        r is Ok == (takes_property(fdt_items(*old(fdt)), name@, 4) && fdt_property_name_valid(name@)),
        r is Ok ==> fdt_items(*final(fdt)) == fdt_items(*old(fdt)).push(u32_item(name@, val)),
        r is Err ==> fdt_items(*final(fdt)) == fdt_items(*old(fdt)),
        r matches Err(e) ==> fdt_error_of(e) == property_refusal(fdt_items(*old(fdt)), name@, 4),
{
    fdt.property_u32(name, val)
}

/// `vm_fdt::FdtWriter::property_u64`: succeeds where the writer has room for
/// the property and the name is valid for a property. On success a property
/// was appended whose value is the eight bytes of `val`, most significant
/// first. On failure nothing was written.
/// The error of a failure is the first that `property_refusal` names.
#[verifier::external_body]
pub(crate) fn fdt_property_u64(fdt: &mut FdtWriter, name: &str, val: u64) -> (r: Result<(), FdtWriterError>)
    ensures
        r is Ok == (takes_property(fdt_items(*old(fdt)), name@, 8) && fdt_property_name_valid(name@)),
        r is Ok ==> fdt_items(*final(fdt)) == fdt_items(*old(fdt)).push(u64_item(name@, val)),
        r is Err ==> fdt_items(*final(fdt)) == fdt_items(*old(fdt)),
        r matches Err(e) ==> fdt_error_of(e) == property_refusal(fdt_items(*old(fdt)), name@, 8),
{
    fdt.property_u64(name, val)
}

/// `vm_fdt::FdtWriter::property_array_u32`: succeeds where the writer has
/// room for the property and the name is valid for a property. On success a
/// property was appended whose value is the cells one after the other, each
/// as in `property_u32`. On failure nothing was written.
/// The error of a failure is the first that `property_refusal` names.
#[verifier::external_body]
pub(crate) fn fdt_property_array_u32(fdt: &mut FdtWriter, name: &str, cells: &[u32]) -> (r: Result<
    (),
    FdtWriterError,
>)
    ensures
        r is Ok == (takes_property(fdt_items(*old(fdt)), name@, 4 * cells@.len()) && fdt_property_name_valid(
            name@,
        )),
        r is Ok ==> fdt_items(*final(fdt)) == fdt_items(*old(fdt)).push(cells32_item(name@, cells@)),
        r is Err ==> fdt_items(*final(fdt)) == fdt_items(*old(fdt)),
        r matches Err(e) ==> fdt_error_of(e) == property_refusal(fdt_items(*old(fdt)), name@, 4 * cells@.len()),
{
    fdt.property_array_u32(name, cells)
}

/// `vm_fdt::FdtWriter::property_array_u64`: succeeds where the writer has
/// room for the property and the name is valid for a property. On success a
/// property was appended whose value is the cells one after the other, each
/// as in `property_u64`. On failure nothing was written.
/// The error of a failure is the first that `property_refusal` names.
#[verifier::external_body]
pub(crate) fn fdt_property_array_u64(fdt: &mut FdtWriter, name: &str, cells: &[u64]) -> (r: Result<
    (),
    FdtWriterError,
>)
    ensures
        r is Ok == (takes_property(fdt_items(*old(fdt)), name@, 8 * cells@.len()) && fdt_property_name_valid(
            name@,
        )),
        r is Ok ==> fdt_items(*final(fdt)) == fdt_items(*old(fdt)).push(cells64_item(name@, cells@)),
        r is Err ==> fdt_items(*final(fdt)) == fdt_items(*old(fdt)),
        r matches Err(e) ==> fdt_error_of(e) == property_refusal(fdt_items(*old(fdt)), name@, 8 * cells@.len()),
{
    fdt.property_array_u64(name, cells)
}

/// A property without a value.
pub open spec fn null_item(name: Seq<char>) -> FdtItem {
    FdtItem::Property { name, value: Seq::empty() }
}

/// A property whose value is a string.
pub open spec fn string_item(name: Seq<char>, val: Seq<char>) -> FdtItem {
    FdtItem::Property { name, value: string_value(val) }
}

/// A property whose value is one cell of 32 bits.
pub open spec fn u32_item(name: Seq<char>, val: u32) -> FdtItem {
    FdtItem::Property { name, value: be_u32(val) }
}

/// A property whose value is one cell of 64 bits.
pub open spec fn u64_item(name: Seq<char>, val: u64) -> FdtItem {
    FdtItem::Property { name, value: be_u64(val) }
}

/// A property whose value is cells of 32 bits.
pub open spec fn cells32_item(name: Seq<char>, cells: Seq<u32>) -> FdtItem {
    FdtItem::Property { name, value: be_u32_cells(cells) }
}

/// A property whose value is cells of 64 bits.
pub open spec fn cells64_item(name: Seq<char>, cells: Seq<u64>) -> FdtItem {
    FdtItem::Property { name, value: be_u64_cells(cells) }
}

/// The result of a call into the writer, with the library's error.
pub fn checked(r: Result<(), FdtWriterError>) -> (c: Result<(), FdtError>)
    ensures
        c is Ok == r is Ok,
        c matches Err(e) ==> e == fdt_error_of(r->Err_0),
{
    match r {
        Ok(()) => Ok(()),
        Err(e) => Err(fdt_error(e)),
    }
}

/// The node that a call into the writer has begun, or the library's error.
pub fn checked_node(r: Result<FdtWriterNode, FdtWriterError>) -> (c: Result<FdtWriterNode, FdtError>)
    ensures
        c is Ok == r is Ok,
        c matches Ok(node) ==> r == Ok::<FdtWriterNode, FdtWriterError>(node),
        c matches Err(e) ==> e == fdt_error_of(r->Err_0),
{
    match r {
        Ok(node) => Ok(node),
        Err(e) => Err(fdt_error(e)),
    }
}

/// One write that is handed to a writer: the item that the writer appends
/// where it takes the write, and the texts that the item's value was made of,
/// each of which the writer wants free of NUL.
pub struct FdtWrite {
    pub item: FdtItem,
    pub texts: Seq<Seq<char>>,
}

/// The start of a node.
pub open spec fn begin_write(name: Seq<char>) -> FdtWrite {
    FdtWrite { item: FdtItem::BeginNode { name }, texts: Seq::empty() }
}

/// The end of the innermost open node.
pub open spec fn end_write() -> FdtWrite {
    FdtWrite { item: FdtItem::EndNode, texts: Seq::empty() }
}

/// A property whose value is made of no text.
pub open spec fn plain_write(item: FdtItem) -> FdtWrite {
    FdtWrite { item, texts: Seq::empty() }
}

/// A property whose value is a string.
pub open spec fn string_write(name: Seq<char>, val: Seq<char>) -> FdtWrite {
    FdtWrite { item: string_item(name, val), texts: seq![val] }
}

/// A property whose value is a list of strings.
pub open spec fn string_list_write(name: Seq<char>, values: Seq<String>) -> FdtWrite {
    FdtWrite {
        item: FdtItem::Property { name, value: string_list_value(values) },
        texts: values.map_values(|s: String| s@),
    }
}

/// The items of writes, in their order.
pub open spec fn items_of(ws: Seq<FdtWrite>) -> Seq<FdtItem> {
    ws.map_values(|w: FdtWrite| w.item)
}

/// Whether a writer that holds `items` takes the write `w`. It takes the start
/// of a node where fewer than 64 nodes are open and the name is free of NUL
/// and valid for a node; the end of the innermost open node where a node is
/// open; and a property where it has room for it (`takes_property`), its name
/// is valid for a property and its texts are free of NUL.
pub open spec fn accepts(items: Seq<FdtItem>, w: FdtWrite) -> bool {
    match w.item {
        FdtItem::BeginNode { name } => open_nodes(items) < FDT_MAX_NODE_DEPTH && no_nul(name)
            && fdt_node_name_valid(name),
        FdtItem::EndNode => open_nodes(items) > 0,
        FdtItem::Property { name, value } => {
            &&& takes_property(items, name, value.len())
            &&& fdt_property_name_valid(name)
            &&& forall|i: int| 0 <= i < w.texts.len() ==> no_nul(#[trigger] w.texts[i])
        },
        _ => false,
    }
}

/// Whether the write `w` is well named: the name of its node or property is
/// free of NUL and valid, and so are the texts of its value.
pub open spec fn well_named(w: FdtWrite) -> bool {
    match w.item {
        FdtItem::BeginNode { name } => no_nul(name) && fdt_node_name_valid(name),
        FdtItem::EndNode => true,
        FdtItem::Property { name, value } => {
            &&& no_nul(name)
            &&& fdt_property_name_valid(name)
            &&& forall|i: int| 0 <= i < w.texts.len() ==> no_nul(#[trigger] w.texts[i])
        },
        _ => false,
    }
}

/// Whether a writer that holds `items` has room for the write `w`: for the
/// start of a node, fewer than 64 nodes are open; for the end of a node, a
/// node is open; for a property, a node is open and none was ended since it
/// was begun, the value's length fits in 32 bits, and so does the length of
/// the names kept so far, where the name is new.
pub open spec fn has_room(items: Seq<FdtItem>, w: FdtWrite) -> bool {
    match w.item {
        FdtItem::BeginNode { .. } => open_nodes(items) < FDT_MAX_NODE_DEPTH,
        FdtItem::EndNode => open_nodes(items) > 0,
        FdtItem::Property { name, value } => {
            &&& !node_ended(items)
            &&& open_nodes(items) > 0
            &&& value.len() <= u32::MAX
            &&& (has_property(items, name) || strings_len(items) <= u32::MAX)
        },
        _ => false,
    }
}

/// A write that is well named is taken where the writer has room for it, and
/// only there.
pub proof fn lemma_accepts_well_named(items: Seq<FdtItem>, w: FdtWrite)
    requires
        well_named(w),
    ensures
        accepts(items, w) == has_room(items, w),
{
}

/// The error with which a writer that holds `items` refuses the write `w`,
/// where it does not take it. It refuses the end of a node with
/// `OutOfOrderEndNode`.
pub open spec fn refusal(items: Seq<FdtItem>, w: FdtWrite) -> FdtError {
    match w.item {
        FdtItem::BeginNode { name } => begin_refusal(items, name),
        FdtItem::Property { name, value } => text_property_refusal(
            items,
            name,
            value.len(),
            forall|i: int| 0 <= i < w.texts.len() ==> no_nul(#[trigger] w.texts[i]),
        ),
        _ => FdtError::OutOfOrderEndNode,
    }
}

/// The error of the write that a writer refused, where it held `start`, was
/// handed the writes `ws` one after the other, and holds `after`: it is the
/// write after those whose items it has added.
pub open spec fn write_error(start: Seq<FdtItem>, ws: Seq<FdtWrite>, after: Seq<FdtItem>) -> FdtError {
    refusal(after, ws[after.len() - start.len()])
}

/// The writer that has taken the first `n` writes holds that many items
/// more, so the error of the write at index `n` is the error of the writes.
pub proof fn lemma_write_error(start: Seq<FdtItem>, ws: Seq<FdtWrite>, n: int, after: Seq<FdtItem>)
    requires
        at(start, ws, n, after),
    ensures
        after.len() - start.len() == n,
        n < ws.len() ==> write_error(start, ws, after) == refusal(after, ws[n]),
{
}

/// What a writer that held `start` holds after it has taken the first `n` of
/// the writes `ws`.
pub open spec fn state(start: Seq<FdtItem>, ws: Seq<FdtWrite>, n: int) -> Seq<FdtItem> {
    start + items_of(ws.take(n))
}

/// Whether a writer that held `start` holds `items` after it has taken the
/// first `n` of the writes `ws`, one after the other.
pub open spec fn at(start: Seq<FdtItem>, ws: Seq<FdtWrite>, n: int, items: Seq<FdtItem>) -> bool {
    &&& 0 <= n <= ws.len()
    &&& items == state(start, ws, n)
    &&& forall|k: int| 0 <= k < n ==> accepts(#[trigger] state(start, ws, k), ws[k])
}

/// What handing the writes `ws` to a writer that holds `start` comes to, one
/// after the other and up to the first that the writer refuses: the writer
/// holds `after`, which is `start` and the items of the writes that it took;
/// and `ok` tells whether it took them all.
pub open spec fn wrote(start: Seq<FdtItem>, ws: Seq<FdtWrite>, after: Seq<FdtItem>, ok: bool) -> bool {
    exists|n: int|
        {
            &&& #[trigger] at(start, ws, n, after)
            &&& ok ==> n == ws.len()
            &&& !ok ==> n < ws.len() && !accepts(after, ws[n])
        }
}

/// Before the first write the writer holds what it held.
pub proof fn lemma_at_start(start: Seq<FdtItem>, ws: Seq<FdtWrite>)
    ensures
        at(start, ws, 0, start),
{
    assert(state(start, ws, 0) =~= start);
}

/// After the last write the writer holds what it held and the items of all
/// the writes.
pub proof fn lemma_at_end(start: Seq<FdtItem>, ws: Seq<FdtWrite>, items: Seq<FdtItem>)
    requires
        at(start, ws, ws.len() as int, items),
    ensures
        items == start + items_of(ws),
        wrote(start, ws, items, true),
{
    assert(ws.take(ws.len() as int) =~= ws);
}

/// One more write adds its item.
pub proof fn lemma_state_push(start: Seq<FdtItem>, ws: Seq<FdtWrite>, k: int)
    requires
        0 <= k < ws.len(),
    ensures
        state(start, ws, k + 1) == state(start, ws, k).push(ws[k].item),
{
    let a = items_of(ws.take(k + 1));
    let b = items_of(ws.take(k)).push(ws[k].item);
    assert(a.len() == b.len());
    assert forall|i: int| 0 <= i < a.len() implies a[i] == b[i] by {
        if i < k {
            assert(ws.take(k + 1)[i] == ws.take(k)[i]);
        }
    }
    assert(a =~= b);
    assert(start + a =~= (start + items_of(ws.take(k))).push(ws[k].item));
}

/// One more write that the writer takes.
pub proof fn lemma_at_step(start: Seq<FdtItem>, ws: Seq<FdtWrite>, k: int, items: Seq<FdtItem>)
    requires
        at(start, ws, k, items),
        k < ws.len(),
        accepts(items, ws[k]),
    ensures
        at(start, ws, k + 1, items.push(ws[k].item)),
{
    lemma_state_push(start, ws, k);
    assert forall|j: int| 0 <= j < k + 1 implies accepts(#[trigger] state(start, ws, j), ws[j]) by {
        if j == k {
            assert(state(start, ws, j) == items);
        }
    }
}

/// Whether the writes `piece` stand in `ws` from index `k` on.
#[verifier::opaque]
pub open spec fn holds_at(ws: Seq<FdtWrite>, k: int, piece: Seq<FdtWrite>) -> bool {
    &&& 0 <= k
    &&& k + piece.len() <= ws.len()
    &&& forall|j: int| 0 <= j < piece.len() ==> ws[k + j] == #[trigger] piece[j]
}

/// The write at index `j` of a piece, in the writes that it stands in.
pub proof fn lemma_holds_index(ws: Seq<FdtWrite>, k: int, piece: Seq<FdtWrite>, j: int)
    requires
        holds_at(ws, k, piece),
        0 <= j < piece.len(),
    ensures
        0 <= k + j < ws.len(),
        ws[k + j] == piece[j],
{
    reveal(holds_at);
}

/// Writes stand in themselves from the start on.
pub proof fn lemma_holds_whole(ws: Seq<FdtWrite>)
    ensures
        holds_at(ws, 0, ws),
{
    reveal(holds_at);
}

/// What stands in writes stands there when more writes follow them.
pub proof fn lemma_holds_left(a: Seq<FdtWrite>, b: Seq<FdtWrite>, k: int, piece: Seq<FdtWrite>)
    requires
        holds_at(a, k, piece),
    ensures
        holds_at(a + b, k, piece),
{
    reveal(holds_at);
    assert forall|j: int| 0 <= j < piece.len() implies (a + b)[k + j] == #[trigger] piece[j] by {
        assert(a[k + j] == piece[j]);
    }
}

/// What stands in writes stands further on when other writes go before them.
pub proof fn lemma_holds_right(a: Seq<FdtWrite>, b: Seq<FdtWrite>, k: int, piece: Seq<FdtWrite>)
    requires
        holds_at(b, k, piece),
    ensures
        holds_at(a + b, a.len() + k, piece),
{
    reveal(holds_at);
    assert forall|j: int| 0 <= j < piece.len() implies (a + b)[a.len() + k + j] == #[trigger] piece[j] by {
        assert(b[k + j] == piece[j]);
    }
}

/// A piece of a piece is a piece.
pub proof fn lemma_holds_inner(ws: Seq<FdtWrite>, k: int, outer: Seq<FdtWrite>, j: int, inner: Seq<FdtWrite>)
    requires
        holds_at(ws, k, outer),
        holds_at(outer, j, inner),
    ensures
        holds_at(ws, k + j, inner),
{
    reveal(holds_at);
    assert forall|i: int| 0 <= i < inner.len() implies ws[k + j + i] == #[trigger] inner[i] by {
        assert(outer[j + i] == inner[i]);
        let t = j + i;
        assert(ws[k + t] == outer[t]);
    }
}

/// What an item adds to the number of open nodes.
pub proof fn lemma_open_nodes_push(items: Seq<FdtItem>, item: FdtItem)
    ensures
        open_nodes(items.push(item)) == open_nodes(items) + match item {
            FdtItem::BeginNode { .. } => 1int,
            FdtItem::EndNode => -1int,
            _ => 0int,
        },
{
    assert(items.push(item).drop_last() =~= items);
}

/// Each cell has four bytes.
pub proof fn lemma_cells32_len(cells: Seq<u32>)
    ensures
        be_u32_cells(cells).len() == 4 * cells.len(),
    decreases cells.len(),
{
    if cells.len() > 0 {
        lemma_cells32_len(cells.drop_last());
    }
}

/// Each cell has eight bytes.
pub proof fn lemma_cells64_len(cells: Seq<u64>)
    ensures
        be_u64_cells(cells).len() == 8 * cells.len(),
    decreases cells.len(),
{
    if cells.len() > 0 {
        lemma_cells64_len(cells.drop_last());
    }
}

/// Hands the writer the start of a node, which is the write at index `k` of
/// `ws`.
pub(crate) fn put_begin(
    fdt: &mut FdtWriter,
    name: &str,
    Ghost(start): Ghost<Seq<FdtItem>>,
    Ghost(ws): Ghost<Seq<FdtWrite>>,
    Ghost(k): Ghost<int>,
) -> (r: Result<FdtWriterNode, FdtError>)
    requires
        at(start, ws, k, fdt_items(*old(fdt))),
        k < ws.len(),
        ws[k] == begin_write(name@),
    ensures
        r is Ok == accepts(fdt_items(*old(fdt)), ws[k]),
        r is Ok ==> at(start, ws, k + 1, fdt_items(*final(fdt))),
        r is Ok ==> open_nodes(fdt_items(*final(fdt))) == open_nodes(fdt_items(*old(fdt))) + 1,
        r matches Ok(node) ==> fdt_node_depth(node) == open_nodes(fdt_items(*final(fdt))) && fdt_node_depth(
            node,
        ) >= 1,
        r is Err ==> fdt_items(*final(fdt)) == fdt_items(*old(fdt)),
        r matches Err(e) ==> e == write_error(start, ws, fdt_items(*final(fdt))),
{
    let r = checked_node(fdt_begin_node(fdt, name));
    proof {
        if r is Ok {
            lemma_at_step(start, ws, k, fdt_items(*old(fdt)));
            lemma_open_nodes_push(fdt_items(*old(fdt)), ws[k].item);
        } else {
            lemma_write_error(start, ws, k, fdt_items(*old(fdt)));
        }
    }
    r
}

/// Hands the writer the end of the node `node`, which is the innermost open
/// one; the write is the one at index `k` of `ws`. The writer takes it.
pub(crate) fn put_end(
    fdt: &mut FdtWriter,
    node: FdtWriterNode,
    Ghost(start): Ghost<Seq<FdtItem>>,
    Ghost(ws): Ghost<Seq<FdtWrite>>,
    Ghost(k): Ghost<int>,
) -> (r: Result<(), FdtError>)
    requires
        at(start, ws, k, fdt_items(*old(fdt))),
        k < ws.len(),
        ws[k] == end_write(),
        fdt_node_depth(node) == open_nodes(fdt_items(*old(fdt))),
        fdt_node_depth(node) >= 1,
    ensures
        r is Ok,
        accepts(fdt_items(*old(fdt)), ws[k]),
        at(start, ws, k + 1, fdt_items(*final(fdt))),
        open_nodes(fdt_items(*final(fdt))) == open_nodes(fdt_items(*old(fdt))) - 1,
{
    let r = checked(fdt_end_node(fdt, node));
    proof {
        lemma_at_step(start, ws, k, fdt_items(*old(fdt)));
        lemma_open_nodes_push(fdt_items(*old(fdt)), ws[k].item);
    }
    r
}

/// Hands the writer a property without a value, which is the write at index
/// `k` of `ws`.
pub(crate) fn put_null(
    fdt: &mut FdtWriter,
    name: &str,
    Ghost(start): Ghost<Seq<FdtItem>>,
    Ghost(ws): Ghost<Seq<FdtWrite>>,
    Ghost(k): Ghost<int>,
) -> (r: Result<(), FdtError>)
    requires
        at(start, ws, k, fdt_items(*old(fdt))),
        k < ws.len(),
        ws[k] == plain_write(null_item(name@)),
    ensures
        r is Ok == accepts(fdt_items(*old(fdt)), ws[k]),
        r is Ok ==> at(start, ws, k + 1, fdt_items(*final(fdt))),
        r is Ok ==> open_nodes(fdt_items(*final(fdt))) == open_nodes(fdt_items(*old(fdt))),
        r is Err ==> fdt_items(*final(fdt)) == fdt_items(*old(fdt)),
        r matches Err(e) ==> e == write_error(start, ws, fdt_items(*final(fdt))),
{
    let r = checked(fdt_property_null(fdt, name));
    proof {
        if r is Ok {
            lemma_at_step(start, ws, k, fdt_items(*old(fdt)));
            lemma_open_nodes_push(fdt_items(*old(fdt)), ws[k].item);
        } else {
            lemma_write_error(start, ws, k, fdt_items(*old(fdt)));
        }
    }
    r
}

/// Hands the writer a property whose value is a string, which is the write at
/// index `k` of `ws`.
pub(crate) fn put_string(
    fdt: &mut FdtWriter,
    name: &str,
    val: &str,
    Ghost(start): Ghost<Seq<FdtItem>>,
    Ghost(ws): Ghost<Seq<FdtWrite>>,
    Ghost(k): Ghost<int>,
) -> (r: Result<(), FdtError>)
    requires
        at(start, ws, k, fdt_items(*old(fdt))),
        k < ws.len(),
        ws[k] == string_write(name@, val@),
    ensures
        r is Ok == accepts(fdt_items(*old(fdt)), ws[k]),
        r is Ok ==> at(start, ws, k + 1, fdt_items(*final(fdt))),
        r is Ok ==> open_nodes(fdt_items(*final(fdt))) == open_nodes(fdt_items(*old(fdt))),
        r is Err ==> fdt_items(*final(fdt)) == fdt_items(*old(fdt)),
        r matches Err(e) ==> e == write_error(start, ws, fdt_items(*final(fdt))),
{
    let r = checked(fdt_property_string(fdt, name, val));
    proof {
        assert(ws[k].texts[0] == val@);
        if r is Ok {
            lemma_at_step(start, ws, k, fdt_items(*old(fdt)));
            lemma_open_nodes_push(fdt_items(*old(fdt)), ws[k].item);
        } else {
            lemma_write_error(start, ws, k, fdt_items(*old(fdt)));
        }
    }
    r
}

/// Hands the writer a property whose value is a list of strings, which is the
/// write at index `k` of `ws`.
pub(crate) fn put_string_list(
    fdt: &mut FdtWriter,
    name: &str,
    values: Vec<String>,
    Ghost(start): Ghost<Seq<FdtItem>>,
    Ghost(ws): Ghost<Seq<FdtWrite>>,
    Ghost(k): Ghost<int>,
) -> (r: Result<(), FdtError>)
    requires
        at(start, ws, k, fdt_items(*old(fdt))),
        k < ws.len(),
        ws[k] == string_list_write(name@, values@),
    ensures
        r is Ok == accepts(fdt_items(*old(fdt)), ws[k]),
        r is Ok ==> at(start, ws, k + 1, fdt_items(*final(fdt))),
        r is Ok ==> open_nodes(fdt_items(*final(fdt))) == open_nodes(fdt_items(*old(fdt))),
        r is Err ==> fdt_items(*final(fdt)) == fdt_items(*old(fdt)),
        r matches Err(e) ==> e == write_error(start, ws, fdt_items(*final(fdt))),
{
    let ghost texts = ws[k].texts;
    let ghost list = values@;
    proof {
        if all_no_nul(list) {
            assert forall|i: int| 0 <= i < texts.len() implies no_nul(#[trigger] texts[i]) by {
                assert(no_nul(list[i]@));
            }
        }
        if forall|i: int| 0 <= i < texts.len() ==> no_nul(#[trigger] texts[i]) {
            assert forall|i: int| 0 <= i < list.len() implies no_nul(#[trigger] list[i]@) by {
                assert(no_nul(texts[i]));
            }
        }
    }
    let r = checked(fdt_property_string_list(fdt, name, values));
    proof {
        if r is Ok {
            lemma_at_step(start, ws, k, fdt_items(*old(fdt)));
            lemma_open_nodes_push(fdt_items(*old(fdt)), ws[k].item);
        } else {
            lemma_write_error(start, ws, k, fdt_items(*old(fdt)));
        }
    }
    r
}

/// Hands the writer a property whose value is one cell of 32 bits, which is
/// the write at index `k` of `ws`.
pub(crate) fn put_u32(
    fdt: &mut FdtWriter,
    name: &str,
    val: u32,
    Ghost(start): Ghost<Seq<FdtItem>>,
    Ghost(ws): Ghost<Seq<FdtWrite>>,
    Ghost(k): Ghost<int>,
) -> (r: Result<(), FdtError>)
    requires
        at(start, ws, k, fdt_items(*old(fdt))),
        k < ws.len(),
        ws[k] == plain_write(u32_item(name@, val)),
    ensures
        r is Ok == accepts(fdt_items(*old(fdt)), ws[k]),
        r is Ok ==> at(start, ws, k + 1, fdt_items(*final(fdt))),
        r is Ok ==> open_nodes(fdt_items(*final(fdt))) == open_nodes(fdt_items(*old(fdt))),
        r is Err ==> fdt_items(*final(fdt)) == fdt_items(*old(fdt)),
        r matches Err(e) ==> e == write_error(start, ws, fdt_items(*final(fdt))),
{
    let r = checked(fdt_property_u32(fdt, name, val));
    proof {
        if r is Ok {
            lemma_at_step(start, ws, k, fdt_items(*old(fdt)));
            lemma_open_nodes_push(fdt_items(*old(fdt)), ws[k].item);
        } else {
            lemma_write_error(start, ws, k, fdt_items(*old(fdt)));
        }
    }
    r
}

/// Hands the writer a property whose value is one cell of 64 bits, which is
/// the write at index `k` of `ws`.
pub(crate) fn put_u64(
    fdt: &mut FdtWriter,
    name: &str,
    val: u64,
    Ghost(start): Ghost<Seq<FdtItem>>,
    Ghost(ws): Ghost<Seq<FdtWrite>>,
    Ghost(k): Ghost<int>,
) -> (r: Result<(), FdtError>)
    requires
        at(start, ws, k, fdt_items(*old(fdt))),
        k < ws.len(),
        ws[k] == plain_write(u64_item(name@, val)),
    ensures
        r is Ok == accepts(fdt_items(*old(fdt)), ws[k]),
        r is Ok ==> at(start, ws, k + 1, fdt_items(*final(fdt))),
        r is Ok ==> open_nodes(fdt_items(*final(fdt))) == open_nodes(fdt_items(*old(fdt))),
        r is Err ==> fdt_items(*final(fdt)) == fdt_items(*old(fdt)),
        r matches Err(e) ==> e == write_error(start, ws, fdt_items(*final(fdt))),
{
    let r = checked(fdt_property_u64(fdt, name, val));
    proof {
        if r is Ok {
            lemma_at_step(start, ws, k, fdt_items(*old(fdt)));
            lemma_open_nodes_push(fdt_items(*old(fdt)), ws[k].item);
        } else {
            lemma_write_error(start, ws, k, fdt_items(*old(fdt)));
        }
    }
    r
}

/// Hands the writer a property whose value is cells of 32 bits, which is the
/// write at index `k` of `ws`.
pub(crate) fn put_cells32(
    fdt: &mut FdtWriter,
    name: &str,
    cells: &[u32],
    Ghost(start): Ghost<Seq<FdtItem>>,
    Ghost(ws): Ghost<Seq<FdtWrite>>,
    Ghost(k): Ghost<int>,
) -> (r: Result<(), FdtError>)
    requires
        at(start, ws, k, fdt_items(*old(fdt))),
        k < ws.len(),
        ws[k] == plain_write(cells32_item(name@, cells@)),
    ensures
        r is Ok == accepts(fdt_items(*old(fdt)), ws[k]),
        r is Ok ==> at(start, ws, k + 1, fdt_items(*final(fdt))),
        r is Ok ==> open_nodes(fdt_items(*final(fdt))) == open_nodes(fdt_items(*old(fdt))),
        r is Err ==> fdt_items(*final(fdt)) == fdt_items(*old(fdt)),
        r matches Err(e) ==> e == write_error(start, ws, fdt_items(*final(fdt))),
{
    proof {
        lemma_cells32_len(cells@);
    }
    let r = checked(fdt_property_array_u32(fdt, name, cells));
    proof {
        if r is Ok {
            lemma_at_step(start, ws, k, fdt_items(*old(fdt)));
            lemma_open_nodes_push(fdt_items(*old(fdt)), ws[k].item);
        } else {
            lemma_write_error(start, ws, k, fdt_items(*old(fdt)));
        }
    }
    r
}

/// Hands the writer a property whose value is cells of 64 bits, which is the
/// write at index `k` of `ws`.
pub(crate) fn put_cells64(
    fdt: &mut FdtWriter,
    name: &str,
    cells: &[u64],
    Ghost(start): Ghost<Seq<FdtItem>>,
    Ghost(ws): Ghost<Seq<FdtWrite>>,
    Ghost(k): Ghost<int>,
) -> (r: Result<(), FdtError>)
    requires
        at(start, ws, k, fdt_items(*old(fdt))),
        k < ws.len(),
        ws[k] == plain_write(cells64_item(name@, cells@)),
    ensures
        r is Ok == accepts(fdt_items(*old(fdt)), ws[k]),
        r is Ok ==> at(start, ws, k + 1, fdt_items(*final(fdt))),
        r is Ok ==> open_nodes(fdt_items(*final(fdt))) == open_nodes(fdt_items(*old(fdt))),
        r is Err ==> fdt_items(*final(fdt)) == fdt_items(*old(fdt)),
        r matches Err(e) ==> e == write_error(start, ws, fdt_items(*final(fdt))),
{
    proof {
        lemma_cells64_len(cells@);
    }
    let r = checked(fdt_property_array_u64(fdt, name, cells));
    proof {
        if r is Ok {
            lemma_at_step(start, ws, k, fdt_items(*old(fdt)));
            lemma_open_nodes_push(fdt_items(*old(fdt)), ws[k].item);
        } else {
            lemma_write_error(start, ws, k, fdt_items(*old(fdt)));
        }
    }
    r
}

} // verus!
