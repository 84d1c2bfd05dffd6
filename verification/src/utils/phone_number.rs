//! Nigerian phone numbers in their canonical form.

use crate::text::{owned, same_text};
use std::fmt::Write;
use vstd::prelude::*;

verus! {

/// What the phone number library finds in a text that it reads as a phone
/// number.
#[derive(Debug)]
pub struct PhoneFacts {
    /// The two-letter code of the region of the number, where it has one.
    pub region: Option<String>,
    /// The number in E.164 form.
    pub e164: String,
    /// Whether the number is a valid one for its region.
    pub valid: bool,
}

/// What phone facts hold.
pub struct PhoneFactsView {
    pub region: Option<Seq<char>>,
    pub e164: Seq<char>,
    pub valid: bool,
}

impl View for PhoneFacts {
    type V = PhoneFactsView;

    open spec fn view(&self) -> PhoneFactsView {
        PhoneFactsView {
            region: match self.region {
                Some(r) => Some(r@),
                None => None,
            },
            e164: self.e164@,
            valid: self.valid,
        }
    }
}

/// Whether `phonenumber::parse`, with Nigeria as the default region, reads
/// a text as a phone number.
pub uninterp spec fn phone_read(raw: Seq<char>) -> bool;

/// The two-letter code that `Country::id` gives for the region of the
/// number read from a text; nothing where it gives none.
pub uninterp spec fn phone_region(raw: Seq<char>) -> Option<Seq<char>>;

/// What the formatter in `Mode::E164` writes for the number read from a
/// text; nothing where it cannot write it.
pub uninterp spec fn phone_e164(raw: Seq<char>) -> Option<Seq<char>>;

/// Whether `PhoneNumber::is_valid` holds of the number read from a text.
pub uninterp spec fn phone_valid(raw: Seq<char>) -> bool;

/// What the library finds in a text: the region of the number, its E.164
/// form and whether it is valid, or nothing where the text is not read as
/// a number or the number cannot be written.
pub open spec fn phone_facts(raw: Seq<char>) -> Option<PhoneFactsView> {
    if phone_read(raw) {
        match phone_e164(raw) {
            Some(e164) => Some(
                PhoneFactsView { region: phone_region(raw), e164, valid: phone_valid(raw) },
            ),
            None => None,
        }
    } else {
        None
    }
}

/// Reads a phone number with Nigeria as the default region.
///
/// Trusted: calls `phonenumber::parse`, then `PhoneNumber::country` and
/// `Country::id` for the region, the formatter in `Mode::E164` for the
/// canonical form, and `PhoneNumber::is_valid`. Each of the four depends on
/// the text alone; the contract gives each a name.
#[verifier::external_body]
fn inspect_phone(raw: &str) -> (facts: Option<PhoneFacts>)
    ensures
        match facts {
            Some(f) => {
                &&& phone_read(raw@)
                &&& phone_e164(raw@) == Some(f@.e164)
                &&& phone_region(raw@) == f@.region
                &&& phone_valid(raw@) == f@.valid
            },
            None => !phone_read(raw@) || phone_e164(raw@) is None,
        },
{
    let number = phonenumber::parse(Some(phonenumber::country::NG), raw).ok()?;
    let mut e164 = String::new();
    write!(e164, "{}", number.format().mode(phonenumber::Mode::E164)).ok()?;
    let region = match number.country().id() {
        Some(id) => Some(id.as_ref().to_owned()),
        None => None,
    };
    Some(PhoneFacts { region, e164, valid: number.is_valid() })
}

/// Why a text is no Nigerian phone number.
#[derive(Debug, Clone, Copy, PartialEq, Eq, Structural)]
pub enum PhoneNumberError {
    /// The text is not read as a phone number.
    Unparseable,
    /// The number belongs to another region.
    NotNigerian,
    /// The number is not a valid one.
    Invalid,
}

impl PhoneNumberError {
    /// The failure in words.
    pub fn message(&self) -> (text: String)
        ensures
            text@ == match *self {
                PhoneNumberError::Unparseable => "Failed to parse phone number"@,
                PhoneNumberError::NotNigerian => "Phone number is not a Nigerian number."@,
                PhoneNumberError::Invalid => "Phone number is not a valid number."@,
            },
    {
        match self {
            PhoneNumberError::Unparseable => owned("Failed to parse phone number"),
            PhoneNumberError::NotNigerian => owned("Phone number is not a Nigerian number."),
            PhoneNumberError::Invalid => owned("Phone number is not a valid number."),
        }
    }
}

/// A Nigerian phone number in E.164 form.
#[derive(Debug)]
pub struct NigerianPhoneNumber(pub String);

/// What the facts found come to.
pub open spec fn judged(facts: Option<PhoneFactsView>) -> Result<Seq<char>, PhoneNumberError> {
    match facts {
        None => Err(PhoneNumberError::Unparseable),
        Some(facts) => if facts.region != Some("NG"@) {
            Err(PhoneNumberError::NotNigerian)
        } else if !facts.valid {
            Err(PhoneNumberError::Invalid)
        } else {
            Ok(facts.e164)
        },
    }
}

/// What canonicalising `raw` comes to.
pub open spec fn canonical(raw: Seq<char>) -> Result<Seq<char>, PhoneNumberError> {
    judged(phone_facts(raw))
}

/// The canonical form of what the library found, if the number is a valid
/// Nigerian one.
pub fn judge(facts: Option<PhoneFacts>) -> (r: Result<NigerianPhoneNumber, PhoneNumberError>)
    ensures
        match r {
            Ok(number) => judged(
                match facts {
                    Some(f) => Some(f@),
                    None => None,
                },
            ) == Ok::<Seq<char>, PhoneNumberError>(number.0@),
            Err(e) => judged(
                match facts {
                    Some(f) => Some(f@),
                    None => None,
                },
            ) == Err::<Seq<char>, PhoneNumberError>(e),
        },
{
    match facts {
        None => Err(PhoneNumberError::Unparseable),
        Some(f) => {
            let nigerian = match &f.region {
                Some(region) => same_text(region.as_str(), "NG"),
                None => false,
            };
            if !nigerian {
                Err(PhoneNumberError::NotNigerian)
            } else if !f.valid {
                Err(PhoneNumberError::Invalid)
            } else {
                Ok(NigerianPhoneNumber(f.e164))
            }
        },
    }
}

impl NigerianPhoneNumber {
    /// Canonicalises a phone number to the E.164 form for Nigeria
    /// (`+234...`). Fails when the text is not read as a phone number, the
    /// number is not Nigerian, or it is not a valid number.
    pub fn new(raw_phone_number: &str) -> (r: Result<NigerianPhoneNumber, PhoneNumberError>)
        ensures
            match r {
                Ok(number) => canonical(raw_phone_number@) == Ok::<Seq<char>, PhoneNumberError>(
                    number.0@,
                ),
                Err(e) => canonical(raw_phone_number@) == Err::<Seq<char>, PhoneNumberError>(e),
            },
    {
        judge(inspect_phone(raw_phone_number))
    }

    /// The number in E.164 form.
    pub fn as_str(&self) -> (text: &str)
        ensures
            text@ == self.0@,
    {
        self.0.as_str()
    }

    /// The number in E.164 form, as `Display` would give it.
    pub fn to_text(&self) -> (text: String)
        ensures
            text@ == self.0@,
    {
        self.0.clone()
    }

    /// The number as a `String`.
    pub fn into_string(self) -> (text: String)
        ensures
            text@ == self.0@,
    {
        self.0
    }
}

/// What is wrong with a field of a request.
#[derive(Debug)]
pub struct ValidationError {
    pub code: String,
    pub message: String,
}

/// Checks that `phone_number` is a Nigerian phone number.
pub fn validate_nigerian_phone_number(phone_number: &str) -> (r: Result<(), ValidationError>)
    ensures
        r is Ok <==> canonical(phone_number@) is Ok,
        r matches Err(e) ==> e.code@ == "invalid_nigerian_phone_number"@,
        r matches Err(e) ==> e.message@ == match canonical(phone_number@) {
            Err(PhoneNumberError::NotNigerian) => "Phone number is not a Nigerian number."@,
            Err(PhoneNumberError::Invalid) => "Phone number is not a valid number."@,
            _ => "Failed to parse phone number"@,
        },
{
    match NigerianPhoneNumber::new(phone_number) {
        Ok(_) => Ok(()),
        Err(e) => Err(
            ValidationError { code: owned("invalid_nigerian_phone_number"), message: e.message() },
        ),
    }
}

} // verus!
