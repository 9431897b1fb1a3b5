//! Made-up invoices, for trying the store out.

use crate::naming::{dir_name_of, push_integer};
use crate::record::{Company, FontSizes, Number, Partner, PaymentStatus, Racun, Service};
use rand::Rng;
use vstd::prelude::*;
use vstd::string::*;

verus! {

/// The double 22.0: the tax rate of a made-up invoice, in percent.
pub const SAMPLE_TAX_BITS: u64 = 0x4036_0000_0000_0000;

/// The double 15.30: the price of each service of a made-up invoice.
pub const SAMPLE_PRICE_BITS: u64 = 0x402E_9999_9999_999A;

/// The double 9.0: the small font size of a made-up invoice.
pub const SAMPLE_SMALL_FONT_BITS: u64 = 0x4022_0000_0000_0000;

/// The double 14.0: the medium font size of a made-up invoice.
pub const SAMPLE_MEDIUM_FONT_BITS: u64 = 0x402C_0000_0000_0000;

/// The double 16.0: the large font size of a made-up invoice.
pub const SAMPLE_LARGE_FONT_BITS: u64 = 0x4030_0000_0000_0000;

/// A day, a month and a year, as they were drawn.
#[derive(Clone, Copy, Debug, PartialEq, Eq, Structural)]
pub struct SampleDate {
    pub day: i32,
    pub month: i32,
    pub year: i32,
}

impl SampleDate {
    /// The date as a made-up invoice writes it: day, month and year in
    /// decimal, with a slash between them.
    pub open spec fn text(&self) -> Seq<char> {
        dir_name_of(self.day as int) + seq!['/'] + dir_name_of(self.month as int) + seq!['/']
            + dir_name_of(self.year as int)
    }

    /// Whether the date is one that `make_fake_invoice` may draw.
    pub open spec fn in_sample_range(&self) -> bool {
        1 <= self.day < 31 && 1 <= self.month < 12 && self.year == 2020
    }

    /// Writes the date out.
    pub fn format(&self) -> (text: String)
        ensures
            text@ == self.text(),
    {
        let mut text = String::new();
        proof {
            reveal_strlit("/");
            assert("/"@ =~= seq!['/']);
        }
        push_integer(&mut text, self.day);
        text.append("/");
        push_integer(&mut text, self.month);
        text.append("/");
        push_integer(&mut text, self.year);
        assert(text@ =~= self.text());
        text
    }
}

/// Whether `service` is the one service that a made-up invoice repeats.
pub open spec fn is_sample_service(service: Service) -> bool {
    &&& service.service_name@ == "Service name"@
    &&& service.service_quantity == 1
    &&& service.service_price.bits == SAMPLE_PRICE_BITS
    &&& service.service_tax.bits == SAMPLE_TAX_BITS
}

/// Whether `record` is the made-up invoice with this number and these dates.
pub open spec fn is_sample_invoice(
    record: Racun,
    number: i32,
    invoice_date: SampleDate,
    due_date: SampleDate,
    service_date: SampleDate,
) -> bool {
    &&& record.invoice_number == number
    &&& record.invoice_date@ == invoice_date.text()
    &&& record.due_date@ == due_date.text()
    &&& record.service_date@ == service_date.text()
    &&& record.invoice_currency@ == "EUR"@
    &&& record.invoice_tax.bits == SAMPLE_TAX_BITS
    &&& record.invoice_reference@ == "123456789"@
    &&& record.created_by@ == "Invoice generator"@
    &&& record.invoice_location@ == "Slovenia"@
    &&& record.status == PaymentStatus::Unpaid
    &&& record.font_sizes.small.bits == SAMPLE_SMALL_FONT_BITS
    &&& record.font_sizes.medium.bits == SAMPLE_MEDIUM_FONT_BITS
    &&& record.font_sizes.large.bits == SAMPLE_LARGE_FONT_BITS
    &&& record.partner.partner_name@ == "Partner name"@
    &&& record.partner.partner_address@ == "Partner address"@
    &&& record.partner.partner_postal_code@ == "Partner postal code"@
    &&& record.partner.partner_vat_id@ == "Partner vat id"@
    &&& record.company.company_currency@ == "EUR"@
    &&& record.company.company_name@ == "Company name"@
    &&& record.company.company_address@ == "Company address"@
    &&& record.company.company_postal_code@ == "Company postal code"@
    &&& record.company.company_vat_id@ == "Company vat id"@
    &&& record.company.company_iban@ == "Company iban"@
    &&& record.company.company_swift@ == "Company swift"@
    &&& record.company.company_registration_number@ == "Company registration number"@
    &&& record.company.company_phone@ == "Company phone"@
    &&& record.company.company_signature@ == "Company signature"@
    &&& record.company.company_vat_rate.bits == SAMPLE_TAX_BITS
    &&& record.services@.len() == 3
    &&& forall|i: int| 0 <= i < 3 ==> is_sample_service(#[trigger] record.services@[i])
}

/// The service that a made-up invoice repeats.
fn sample_service() -> (service: Service)
    ensures
        is_sample_service(service),
{
    Service {
        service_name: String::from_str("Service name"),
        service_quantity: 1,
        service_price: Number { bits: SAMPLE_PRICE_BITS },
        service_tax: Number { bits: SAMPLE_TAX_BITS },
    }
}

/// The made-up invoice with this number and these dates.
pub fn sample_invoice(
    number: i32,
    invoice_date: SampleDate,
    due_date: SampleDate,
    service_date: SampleDate,
) -> (record: Racun)
    ensures
        is_sample_invoice(record, number, invoice_date, due_date, service_date),
{
    let mut services: Vec<Service> = Vec::new();
    services.push(sample_service());
    services.push(sample_service());
    services.push(sample_service());
    Racun {
        font_sizes: FontSizes {
            small: Number { bits: SAMPLE_SMALL_FONT_BITS },
            medium: Number { bits: SAMPLE_MEDIUM_FONT_BITS },
            large: Number { bits: SAMPLE_LARGE_FONT_BITS },
        },
        invoice_number: number,
        invoice_date: invoice_date.format(),
        service_date: service_date.format(),
        due_date: due_date.format(),
        invoice_currency: String::from_str("EUR"),
        invoice_tax: Number { bits: SAMPLE_TAX_BITS },
        invoice_reference: String::from_str("123456789"),
        created_by: String::from_str("Invoice generator"),
        invoice_location: String::from_str("Slovenia"),
        status: PaymentStatus::Unpaid,
        partner: Partner {
            partner_name: String::from_str("Partner name"),
            partner_address: String::from_str("Partner address"),
            partner_postal_code: String::from_str("Partner postal code"),
            partner_vat_id: String::from_str("Partner vat id"),
        },
        company: Company {
            company_currency: String::from_str("EUR"),
            company_name: String::from_str("Company name"),
            company_address: String::from_str("Company address"),
            company_postal_code: String::from_str("Company postal code"),
            company_vat_id: String::from_str("Company vat id"),
            company_iban: String::from_str("Company iban"),
            company_swift: String::from_str("Company swift"),
            company_registration_number: String::from_str("Company registration number"),
            company_phone: String::from_str("Company phone"),
            company_signature: String::from_str("Company signature"),
            company_vat_rate: Number { bits: SAMPLE_TAX_BITS },
        },
        services,
    }
}

/// Draws a number from `low` up to, but not including, `high`.
///
/// Calls `gen_range` of `rand::Rng` on the generator that `rand::thread_rng`
/// gives, with the half-open range `low..high`. The call panics on an empty
/// range, which the precondition leaves out. Of the number drawn only its
/// bounds are claimed.
#[verifier::external_body]
fn draw_between(low: i32, high: i32) -> (drawn: i32)
    requires
        low < high,
    ensures
        low <= drawn < high,
{
    rand::thread_rng().gen_range(low..high)
}

/// Draws a date as `make_fake_invoice` does: the day from 1 to 30, the month
/// from 1 to 11, the year 2020.
fn draw_date() -> (date: SampleDate)
    ensures
        date.in_sample_range(),
{
    let day = draw_between(1, 31);
    let month = draw_between(1, 12);
    let year = draw_between(2020, 2021);
    SampleDate { day, month, year }
}

/// A made-up invoice with a number from 1 to 199 and three dates, all drawn
/// at random.
pub fn make_fake_invoice() -> (record: Racun)
    ensures
        1 <= record.invoice_number < 200,
        exists|invoice_date: SampleDate, due_date: SampleDate, service_date: SampleDate|
            {
                &&& invoice_date.in_sample_range()
                &&& due_date.in_sample_range()
                &&& service_date.in_sample_range()
                &&& #[trigger] is_sample_invoice(
                    record,
                    record.invoice_number,
                    invoice_date,
                    due_date,
                    service_date,
                )
            },
{
    let number = draw_between(1, 200);
    let invoice_date = draw_date();
    let due_date = draw_date();
    let service_date = draw_date();
    let record = sample_invoice(number, invoice_date, due_date, service_date);
    assert(is_sample_invoice(record, record.invoice_number, invoice_date, due_date, service_date));
    record
}

} // verus!
