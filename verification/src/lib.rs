//! Barcode value types: UPC-A, EAN-13 and PLU codes, with validated
//! construction from decimal strings and canonical fixed-width rendering.

pub mod digits;
pub mod ean13;
pub mod plu;
pub mod upc;
