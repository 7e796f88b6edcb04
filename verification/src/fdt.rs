//! The flattened device tree writer of the `vm-fdt` crate.
//!
//! A writer is modelled by the tokens it has accepted: the beginning of a
//! node, the end of a node, and a property with its value. The blob that it
//! finally emits is a function of those tokens.

use crate::bytes;
use vm_fdt::{FdtWriter, FdtWriterNode};
use vstd::prelude::*;

verus! {

/// A node begins.
pub const FDT_BEGIN_NODE: u32 = 1;

/// The innermost open node ends.
pub const FDT_END_NODE: u32 = 2;

/// A property of the innermost open node.
pub const FDT_PROP: u32 = 3;

/// Nodes that may be open at once.
pub const FDT_MAX_NODE_DEPTH: usize = 64;

/// `vm_fdt::FdtWriter`.
#[verifier::external_type_specification]
#[verifier::external_body]
pub struct ExFdtWriter(FdtWriter);

/// `vm_fdt::FdtWriterNode`, the handle to an open node.
#[verifier::external_type_specification]
#[verifier::external_body]
pub struct ExFdtWriterNode(FdtWriterNode);

/// `vm_fdt::Error`.
#[verifier::external_type_specification]
#[verifier::external_body]
pub struct ExFdtError(vm_fdt::Error);

/// The tokens that a writer has accepted: kind, name and value of each.
pub uninterp spec fn fdt_tokens(w: FdtWriter) -> Seq<(u32, Seq<char>, Seq<u8>)>;

/// How many nodes were open, this one included, when the node was begun.
pub uninterp spec fn fdt_node_depth(node: FdtWriterNode) -> nat;

/// The blob that a writer emits for `tokens`.
pub uninterp spec fn fdt_blob(tokens: Seq<(u32, Seq<char>, Seq<u8>)>) -> Seq<u8>;

/// How many nodes are open after `tokens`.
pub open spec fn open_nodes(tokens: Seq<(u32, Seq<char>, Seq<u8>)>) -> int
    decreases tokens.len(),
{
    if tokens.len() == 0 {
        0
    } else {
        open_nodes(tokens.drop_last()) + if tokens.last().0 == FDT_BEGIN_NODE {
            1int
        } else if tokens.last().0 == FDT_END_NODE {
            -1int
        } else {
            0int
        }
    }
}

/// At least the bytes that a token takes in the blob.
pub open spec fn token_size(token: (u32, Seq<char>, Seq<u8>)) -> nat {
    16 + token.1.len() + token.2.len()
}

/// At least the bytes that the blob of `tokens` takes.
pub open spec fn blob_bound(tokens: Seq<(u32, Seq<char>, Seq<u8>)>) -> nat
    decreases tokens.len(),
{
    if tokens.len() == 0 {
        60
    } else {
        blob_bound(tokens.drop_last()) + token_size(tokens.last())
    }
}

/// Characters of a node name and of a unit address.
pub open spec fn node_name_char(c: char) -> bool {
    ||| '0' <= c <= '9'
    ||| 'a' <= c <= 'z'
    ||| 'A' <= c <= 'Z'
    ||| c == ','
    ||| c == '.'
    ||| c == '_'
    ||| c == '+'
    ||| c == '-'
}

/// `name` is a node name of `k` characters, alone or with `@` and a unit
/// address behind it.
pub open spec fn node_name_parts(name: Seq<char>, k: int) -> bool {
    &&& 1 <= k <= 31
    &&& k <= name.len()
    &&& 'a' <= name[0] <= 'z'
    &&& forall|i: int| 0 <= i < name.len() && i != k ==> #[trigger] node_name_char(name[i])
    &&& k < name.len() ==> name[k] == '@'
}

/// `name` may begin a node.
pub open spec fn node_name_ok(name: Seq<char>) -> bool {
    name.len() == 0 || exists|k: int| #[trigger] node_name_parts(name, k)
}

/// Characters of a property name.
pub open spec fn property_name_char(c: char) -> bool {
    node_name_char(c) || c == '?' || c == '#'
}

/// `name` may name a property.
pub open spec fn property_name_ok(name: Seq<char>) -> bool {
    1 <= name.len() <= 31 && forall|i: int|
        0 <= i < name.len() ==> #[trigger] property_name_char(name[i])
}

/// A property may be added after `tokens`: a node is open and has no child yet.
pub open spec fn in_node_head(tokens: Seq<(u32, Seq<char>, Seq<u8>)>) -> bool {
    tokens.len() > 0 && tokens.last().0 != FDT_END_NODE
}

/// The property `name` with value `value` is accepted after `tokens`.
pub open spec fn accepts_property(
    tokens: Seq<(u32, Seq<char>, Seq<u8>)>,
    name: Seq<char>,
    value: Seq<u8>,
) -> bool {
    &&& in_node_head(tokens)
    &&& property_name_ok(name)
    &&& blob_bound(tokens.push((FDT_PROP, name, value))) <= u32::MAX
}

/// `s` as a NUL-terminated string.
pub open spec fn string_value(s: Seq<char>) -> Seq<u8> {
    vstd::utf8::encode_utf8(s).push(0)
}

/// `list` as NUL-terminated strings, one behind the other.
pub open spec fn string_list_value(list: Seq<String>) -> Seq<u8>
    decreases list.len(),
{
    if list.len() == 0 {
        Seq::empty()
    } else {
        string_list_value(list.drop_last()) + string_value(list.last()@)
    }
}

/// `cells` as big-endian 32-bit numbers.
pub open spec fn u32_cells(cells: Seq<u32>) -> Seq<u8>
    decreases cells.len(),
{
    if cells.len() == 0 {
        Seq::empty()
    } else {
        u32_cells(cells.drop_last()) + bytes::be_bytes(cells.last() as nat, 4)
    }
}

/// `cells` as big-endian 64-bit numbers.
pub open spec fn u64_cells(cells: Seq<u64>) -> Seq<u8>
    decreases cells.len(),
{
    if cells.len() == 0 {
        Seq::empty()
    } else {
        u64_cells(cells.drop_last()) + bytes::be_bytes(cells.last() as nat, 8)
    }
}

/// No character of `s` is NUL.
pub open spec fn has_no_nul(s: Seq<char>) -> bool {
    forall|i: int| 0 <= i < s.len() ==> s[i] != '\0'
}

/// `FdtWriter::new`: succeeds, with a writer that has accepted nothing.
#[verifier::external_body]
pub(crate) fn fdt_new() -> (r: Result<FdtWriter, vm_fdt::Error>)
    ensures
        r is Ok,
        fdt_tokens(r->Ok_0) == Seq::<(u32, Seq<char>, Seq<u8>)>::empty(),
{
    FdtWriter::new()
}

/// `FdtWriter::begin_node`: opens a node if its name is valid and fewer than
/// 64 nodes are open; on an error the writer stays as it was.
#[verifier::external_body]
pub(crate) fn fdt_begin_node(w: &mut FdtWriter, name: &str) -> (r: Result<
    FdtWriterNode,
    vm_fdt::Error,
>)
    ensures
        node_name_ok(name@) && open_nodes(fdt_tokens(*old(w))) < FDT_MAX_NODE_DEPTH ==> r is Ok,
        match r {
            Ok(node) => {
                &&& fdt_tokens(*final(w)) == fdt_tokens(*old(w)).push(
                    (FDT_BEGIN_NODE, name@, Seq::<u8>::empty()),
                )
                &&& fdt_node_depth(node) == open_nodes(fdt_tokens(*old(w))) + 1
            },
            Err(_) => fdt_tokens(*final(w)) == fdt_tokens(*old(w)),
        },
{
    w.begin_node(name)
}

/// `FdtWriter::end_node`: closes the node if it is the innermost open one; on
/// an error the writer stays as it was.
#[verifier::external_body]
pub(crate) fn fdt_end_node(w: &mut FdtWriter, node: FdtWriterNode) -> (r: Result<
    (),
    vm_fdt::Error,
>)
    ensures
        r is Ok <==> fdt_node_depth(node) == open_nodes(fdt_tokens(*old(w))),
        match r {
            Ok(()) => fdt_tokens(*final(w)) == fdt_tokens(*old(w)).push(
                (FDT_END_NODE, Seq::<char>::empty(), Seq::<u8>::empty()),
            ),
            Err(_) => fdt_tokens(*final(w)) == fdt_tokens(*old(w)),
        },
{
    w.end_node(node)
}

/// `FdtWriter::property_null`: adds a property with an empty value where a
/// property is accepted; on an error the writer stays as it was.
#[verifier::external_body]
pub(crate) fn fdt_property_null(w: &mut FdtWriter, name: &str) -> (r: Result<(), vm_fdt::Error>)
    ensures
        accepts_property(fdt_tokens(*old(w)), name@, Seq::<u8>::empty()) ==> r is Ok,
        match r {
            Ok(()) => fdt_tokens(*final(w)) == fdt_tokens(*old(w)).push(
                (FDT_PROP, name@, Seq::<u8>::empty()),
            ),
            Err(_) => fdt_tokens(*final(w)) == fdt_tokens(*old(w)),
        },
{
    w.property_null(name)
}

/// `FdtWriter::property_string`: adds a NUL-terminated string that holds no
/// NUL itself; on an error the writer stays as it was.
#[verifier::external_body]
pub(crate) fn fdt_property_string(w: &mut FdtWriter, name: &str, val: &str) -> (r: Result<
    (),
    vm_fdt::Error,
>)
    ensures
        has_no_nul(val@) && accepts_property(fdt_tokens(*old(w)), name@, string_value(val@))
            ==> r is Ok,
        match r {
            Ok(()) => fdt_tokens(*final(w)) == fdt_tokens(*old(w)).push(
                (FDT_PROP, name@, string_value(val@)),
            ),
            Err(_) => fdt_tokens(*final(w)) == fdt_tokens(*old(w)),
        },
{
    w.property_string(name, val)
}

/// `FdtWriter::property_string_list`: adds NUL-terminated strings that hold no
/// NUL themselves; on an error the writer stays as it was.
#[verifier::external_body]
pub(crate) fn fdt_property_string_list(
    w: &mut FdtWriter,
    name: &str,
    values: Vec<String>,
) -> (r: Result<(), vm_fdt::Error>)
    ensures
        (forall|i: int| 0 <= i < values@.len() ==> has_no_nul(#[trigger] values@[i]@))
            && accepts_property(fdt_tokens(*old(w)), name@, string_list_value(values@)) ==> r is Ok,
        match r {
            Ok(()) => fdt_tokens(*final(w)) == fdt_tokens(*old(w)).push(
                (FDT_PROP, name@, string_list_value(values@)),
            ),
            Err(_) => fdt_tokens(*final(w)) == fdt_tokens(*old(w)),
        },
{
    w.property_string_list(name, values)
}

/// `FdtWriter::property_u32`: adds a big-endian 32-bit number; on an error the
/// writer stays as it was.
#[verifier::external_body]
pub(crate) fn fdt_property_u32(w: &mut FdtWriter, name: &str, val: u32) -> (r: Result<
    (),
    vm_fdt::Error,
>)
    ensures
        accepts_property(fdt_tokens(*old(w)), name@, bytes::be_bytes(val as nat, 4)) ==> r is Ok,
        match r {
            Ok(()) => fdt_tokens(*final(w)) == fdt_tokens(*old(w)).push(
                (FDT_PROP, name@, bytes::be_bytes(val as nat, 4)),
            ),
            Err(_) => fdt_tokens(*final(w)) == fdt_tokens(*old(w)),
        },
{
    w.property_u32(name, val)
}

/// `FdtWriter::property_u64`: adds a big-endian 64-bit number; on an error the
/// writer stays as it was.
#[verifier::external_body]
pub(crate) fn fdt_property_u64(w: &mut FdtWriter, name: &str, val: u64) -> (r: Result<
    (),
    vm_fdt::Error,
>)
    ensures
        accepts_property(fdt_tokens(*old(w)), name@, bytes::be_bytes(val as nat, 8)) ==> r is Ok,
        match r {
            Ok(()) => fdt_tokens(*final(w)) == fdt_tokens(*old(w)).push(
                (FDT_PROP, name@, bytes::be_bytes(val as nat, 8)),
            ),
            Err(_) => fdt_tokens(*final(w)) == fdt_tokens(*old(w)),
        },
{
    w.property_u64(name, val)
}

/// `FdtWriter::property_array_u32`: adds big-endian 32-bit numbers; on an
/// error the writer stays as it was.
#[verifier::external_body]
pub(crate) fn fdt_property_array_u32(w: &mut FdtWriter, name: &str, cells: &[u32]) -> (r: Result<
    (),
    vm_fdt::Error,
>)
    ensures
        accepts_property(fdt_tokens(*old(w)), name@, u32_cells(cells@)) ==> r is Ok,
        match r {
            Ok(()) => fdt_tokens(*final(w)) == fdt_tokens(*old(w)).push(
                (FDT_PROP, name@, u32_cells(cells@)),
            ),
            Err(_) => fdt_tokens(*final(w)) == fdt_tokens(*old(w)),
        },
{
    w.property_array_u32(name, cells)
}

/// `FdtWriter::property_array_u64`: adds big-endian 64-bit numbers; on an
/// error the writer stays as it was.
#[verifier::external_body]
pub(crate) fn fdt_property_array_u64(w: &mut FdtWriter, name: &str, cells: &[u64]) -> (r: Result<
    (),
    vm_fdt::Error,
>)
    ensures
        accepts_property(fdt_tokens(*old(w)), name@, u64_cells(cells@)) ==> r is Ok,
        match r {
            Ok(()) => fdt_tokens(*final(w)) == fdt_tokens(*old(w)).push(
                (FDT_PROP, name@, u64_cells(cells@)),
            ),
            Err(_) => fdt_tokens(*final(w)) == fdt_tokens(*old(w)),
        },
{
    w.property_array_u64(name, cells)
}

/// `FdtWriter::finish`: emits the blob if no node is open and its size fits in
/// 32 bits; the blob is no longer than the bound says.
#[verifier::external_body]
pub(crate) fn fdt_finish(w: FdtWriter) -> (r: Result<Vec<u8>, vm_fdt::Error>)
    ensures
        open_nodes(fdt_tokens(w)) == 0 && blob_bound(fdt_tokens(w)) <= u32::MAX ==> r is Ok,
        r matches Ok(blob) ==> blob@ == fdt_blob(fdt_tokens(w)) && blob@.len() <= blob_bound(
            fdt_tokens(w),
        ),
{
    w.finish()
}

} // verus!
