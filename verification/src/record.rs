//! The data model of one invoice.

use vstd::prelude::*;

verus! {

/// A floating-point number of a record, held as the bit pattern of its
/// IEEE-754 double. The library never computes with such a number: it only
/// carries it, and the bit pattern keeps every value apart from every other.
#[derive(Clone, Copy, Debug, PartialEq, Eq, Structural)]
pub struct Number {
    pub bits: u64,
}

/// The three font sizes that a renderer of the invoice is asked to use.
#[derive(Clone, Copy, Debug, PartialEq, Eq, Structural)]
pub struct FontSizes {
    pub small: Number,
    pub medium: Number,
    pub large: Number,
}

/// Whether an invoice has been paid.
#[derive(Clone, Copy, Debug, PartialEq, Eq, Structural)]
pub enum PaymentStatus {
    Unpaid,
    Paid,
}

/// The party that is billed.
#[derive(Debug)]
pub struct Partner {
    pub partner_name: String,
    pub partner_address: String,
    pub partner_postal_code: String,
    pub partner_vat_id: String,
}

/// One line of an invoice.
#[derive(Debug)]
pub struct Service {
    pub service_name: String,
    pub service_quantity: i32,
    pub service_price: Number,
    pub service_tax: Number,
}

/// The party that issues the invoice.
#[derive(Debug)]
pub struct Company {
    pub company_currency: String,
    pub company_name: String,
    pub company_address: String,
    pub company_postal_code: String,
    pub company_vat_id: String,
    pub company_iban: String,
    pub company_swift: String,
    pub company_registration_number: String,
    pub company_phone: String,
    /// The signature image, base64 encoded.
    pub company_signature: String,
    pub company_vat_rate: Number,
}

/// One invoice.
#[derive(Debug)]
pub struct Racun {
    pub font_sizes: FontSizes,
    pub invoice_number: i32,
    pub invoice_date: String,
    pub service_date: String,
    pub due_date: String,
    pub invoice_currency: String,
    pub invoice_tax: Number,
    pub invoice_reference: String,
    pub created_by: String,
    pub invoice_location: String,
    pub status: PaymentStatus,
    pub partner: Partner,
    pub company: Company,
    pub services: Vec<Service>,
}

} // verus!
