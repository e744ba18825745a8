//! The identity of a physical drive: its model string and its bus type, decoded
//! from the device property descriptor.

use vstd::prelude::*;
use vstd::string::StringExecFns;
use vstd::utf8::{decode_utf8, valid_utf8};
use crate::bus::BusType;
use crate::request::DeviceError;
use crate::text::{decode_lossy, text_field, text_field_bytes, utf8_lossy};
use crate::wire::{le_u32, read_u32};

verus! {

/// Size of the fixed part of a device property descriptor. The strings that the
/// descriptor refers to lie behind it.
pub const DESCRIPTOR_FIXED_LEN: usize = 36;

/// Where the descriptor holds the offset of the vendor id string.
pub const VENDOR_ID_OFFSET_AT: usize = 12;

/// Where the descriptor holds the offset of the product id string.
pub const PRODUCT_ID_OFFSET_AT: usize = 16;

/// Where the descriptor holds the bus-type code.
pub const BUS_TYPE_AT: usize = 28;

/// What a physical drive says of itself.
#[derive(Debug)]
pub struct Identity {
    /// Vendor id and product id, joined by one space.
    pub model: String,
    pub bus_type: BusType,
}

/// The model string made of a vendor id and a product id. The separating space
/// is always there, also next to an empty part.
pub open spec fn model_text(vendor: Seq<char>, product: Seq<char>) -> Seq<char> {
    vendor.push(' ') + product
}

/// The bytes of the vendor id that a descriptor refers to.
pub open spec fn descriptor_vendor(buf: Seq<u8>) -> Seq<u8> {
    text_field(buf, le_u32(buf, VENDOR_ID_OFFSET_AT as int) as int)
}

/// The bytes of the product id that a descriptor refers to.
pub open spec fn descriptor_product(buf: Seq<u8>) -> Seq<u8> {
    text_field(buf, le_u32(buf, PRODUCT_ID_OFFSET_AT as int) as int)
}

/// The model string of a descriptor.
pub open spec fn descriptor_model(buf: Seq<u8>) -> Seq<char> {
    model_text(utf8_lossy(descriptor_vendor(buf)), utf8_lossy(descriptor_product(buf)))
}

/// Whether both strings of a descriptor are valid UTF-8, as the plain ASCII
/// ids of ordinary drives are.
pub open spec fn descriptor_text_valid(buf: Seq<u8>) -> bool {
    valid_utf8(descriptor_vendor(buf)) && valid_utf8(descriptor_product(buf))
}

/// The model string of a descriptor whose strings are valid UTF-8.
pub open spec fn descriptor_model_decoded(buf: Seq<u8>) -> Seq<char> {
    model_text(decode_utf8(descriptor_vendor(buf)), decode_utf8(descriptor_product(buf)))
}

/// The bus type of a descriptor.
pub open spec fn descriptor_bus_type(buf: Seq<u8>) -> BusType {
    BusType::of_code(buf[BUS_TYPE_AT as int])
}

/// Joins a vendor id and a product id into a model string.
pub fn join_model(vendor: &str, product: &str) -> (model: String)
    ensures
        model@ == model_text(vendor@, product@),
{
    let mut model = String::from_str(vendor);
    model.push(' ');
    model.append(product);
    model
}

/// Decodes a device property descriptor. The strings are looked up at their
/// offsets from the start of the descriptor; offset zero stands for an absent
/// string and is never followed. A response shorter than the fixed part of a
/// descriptor has no identity.
pub fn parse_descriptor(buf: &[u8]) -> (identity: Option<Identity>)
    ensures
        identity is Some <==> buf.len() >= DESCRIPTOR_FIXED_LEN,
        identity matches Some(id) ==> {
            &&& id.model@ == descriptor_model(buf@)
            &&& descriptor_text_valid(buf@) ==> id.model@ == descriptor_model_decoded(buf@)
            &&& id.bus_type == descriptor_bus_type(buf@)
        },
{
    if buf.len() < DESCRIPTOR_FIXED_LEN {
        return None;
    }
    let vendor_at: usize = read_u32(buf, VENDOR_ID_OFFSET_AT) as usize;
    let product_at: usize = read_u32(buf, PRODUCT_ID_OFFSET_AT) as usize;
    let vendor = decode_lossy(text_field_bytes(buf, vendor_at));
    let product = decode_lossy(text_field_bytes(buf, product_at));
    let model = join_model(vendor.as_str(), product.as_str());
    let bus_type = BusType::from_code(buf[BUS_TYPE_AT]);
    Some(Identity { model, bus_type })
}

/// Whether the outcome of an identity request gives an identity. A failed
/// exchange gives none, and neither does a response that is too short to hold
/// a descriptor.
pub open spec fn identity_available(response: Result<Vec<u8>, DeviceError>) -> bool {
    response matches Ok(buf) && buf.len() >= DESCRIPTOR_FIXED_LEN
}

/// Resolves the outcome of an identity request to the drive's identity, or to
/// `None` where the drive could not be opened or did not answer.
pub fn query_identity(response: &Result<Vec<u8>, DeviceError>) -> (identity: Option<Identity>)
    ensures
        identity is Some <==> identity_available(*response),
        identity matches Some(id) ==> {
            &&& id.model@ == descriptor_model(response->Ok_0@)
            &&& descriptor_text_valid(response->Ok_0@) ==> id.model@ == descriptor_model_decoded(
                response->Ok_0@,
            )
            &&& id.bus_type == descriptor_bus_type(response->Ok_0@)
        },
{
    match response {
        Ok(buf) => parse_descriptor(buf.as_slice()),
        Err(_) => None,
    }
}

} // verus!
