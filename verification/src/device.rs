//! An attached device as the USB bus describes it.
use crate::model;
use crate::phrases::{Language, Phrase};
use crate::text;
use crate::text::{hex8_of, trim_of};
use vstd::prelude::*;

verus! {

/// An attached MTP device.
#[derive(Clone, Debug, PartialEq, Eq)]
pub struct DeviceInfo {
    pub manufacturer: Option<String>,
    pub product: Option<String>,
    pub serial_number: Option<String>,
    /// The USB port that the device hangs on.
    pub location_id: u64,
}

/// What a device description holds.
#[verifier::ext_equal]
pub struct DeviceView {
    pub manufacturer: Option<Seq<char>>,
    pub product: Option<Seq<char>>,
    pub serial_number: Option<Seq<char>>,
    pub location_id: u64,
}

impl View for DeviceInfo {
    type V = DeviceView;

    open spec fn view(&self) -> DeviceView {
        DeviceView {
            manufacturer: model::text_option(self.manufacturer),
            product: model::text_option(self.product),
            serial_number: model::text_option(self.serial_number),
            location_id: self.location_id,
        }
    }
}

impl DeepView for DeviceInfo {
    type V = DeviceView;

    open spec fn deep_view(&self) -> DeviceView {
        self@
    }
}

/// The text, or `default` where there is none.
pub open spec fn text_or(s: Option<Seq<char>>, default: Seq<char>) -> Seq<char> {
    match s {
        Some(s) => s,
        None => default,
    }
}

/// The trimmed text, or `default` where that is empty.
pub open spec fn trimmed_or(s: Option<Seq<char>>, default: Seq<char>) -> Seq<char> {
    let trimmed = text::trim(text_or(s, Seq::empty()));
    if trimmed.len() == 0 {
        default
    } else {
        trimmed
    }
}

fn text_or_of<'a>(s: &'a Option<String>, default: &'a str) -> (r: &'a str)
    ensures
        r@ == text_or(model::text_option(*s), default@),
{
    match s {
        Some(s) => s.as_str(),
        None => default,
    }
}

/// The trimmed text of an optional string; empty where there is none.
pub fn trimmed(s: &Option<String>) -> (r: String)
    ensures
        r@ == text::trim(text_or(model::text_option(*s), Seq::empty())),
{
    match s {
        Some(s) => trim_of(s.as_str()),
        None => String::new(),
    }
}

fn trimmed_or_of(s: &Option<String>, default: &str) -> (r: String)
    ensures
        r@ == trimmed_or(model::text_option(*s), default@),
{
    let r = trimmed(s);
    if r.as_str().unicode_len() == 0 {
        default.to_string()
    } else {
        r
    }
}

impl DeviceView {
    /// The one-line description of the device.
    pub open spec fn display(self) -> Seq<char> {
        let name = text_or(self.manufacturer, "Unknown"@) + " "@ + text_or(
            self.product,
            "Unknown"@,
        );
        let location = text::padded_hex(self.location_id as nat, 8);
        match self.serial_number {
            Some(serial) => name + " (serial: "@ + serial + ", location: "@ + location + ")"@,
            None => name + " (location: "@ + location + ")"@,
        }
    }

    /// The device's name in the device list.
    pub open spec fn list_name(self, language: Language) -> Seq<char> {
        trimmed_or(self.product, Phrase::UnnamedDevice.say(language))
    }

    /// The device's manufacturer, for display.
    pub open spec fn manufacturer_name(self, language: Language) -> Seq<char> {
        trimmed_or(self.manufacturer, Phrase::NotProvided.say(language))
    }

    /// The device's serial number, for display.
    pub open spec fn serial_name(self, language: Language) -> Seq<char> {
        text_or(self.serial_number, Phrase::NotProvided.say(language))
    }
}

fn copied_text(s: &Option<String>) -> (r: Option<String>)
    ensures
        model::text_option(r) == model::text_option(*s),
{
    match s {
        Some(s) => Some(s.clone()),
        None => None,
    }
}

impl DeviceInfo {
    /// The same description once more.
    pub fn copied(&self) -> (r: DeviceInfo)
        ensures
            r@ == self@,
    {
        DeviceInfo {
            manufacturer: copied_text(&self.manufacturer),
            product: copied_text(&self.product),
            serial_number: copied_text(&self.serial_number),
            location_id: self.location_id,
        }
    }

    /// The one-line description of the device.
    pub fn display(&self) -> (r: String)
        ensures
            r@ == self@.display(),
    {
        let mut r = text_or_of(&self.manufacturer, "Unknown").to_string();
        r.append(" ");
        r.append(text_or_of(&self.product, "Unknown"));
        match &self.serial_number {
            Some(serial) => {
                r.append(" (serial: ");
                r.append(serial.as_str());
                r.append(", location: ");
            },
            None => {
                r.append(" (location: ");
            },
        }
        r.append(hex8_of(self.location_id).as_str());
        r.append(")");
        r
    }

    /// The device's name in the device list: its product name, if it has one.
    pub fn device_list_name(&self, language: Language) -> (r: String)
        ensures
            r@ == self@.list_name(language),
    {
        trimmed_or_of(&self.product, Phrase::UnnamedDevice.text(language))
    }

    /// The device's manufacturer, for display.
    pub fn device_manufacturer(&self, language: Language) -> (r: String)
        ensures
            r@ == self@.manufacturer_name(language),
    {
        trimmed_or_of(&self.manufacturer, Phrase::NotProvided.text(language))
    }

    /// The device's serial number, for display.
    pub fn device_serial(&self, language: Language) -> (r: String)
        ensures
            r@ == self@.serial_name(language),
    {
        text_or_of(&self.serial_number, Phrase::NotProvided.text(language)).to_string()
    }
}

/// A device is listed under its own product name, without white space around it, and shown
/// with its own manufacturer and serial number. Only where it gives none, or nothing but white
/// space, other words stand in.
pub proof fn law_devices_are_shown_by_their_own_names(
    device: DeviceView,
    name: Seq<char>,
    language: Language,
)
    ensures
        device.product == Some(name) && text::trim(name).len() > 0 ==> device.list_name(language)
            == text::trim(name),
        device.product is None || text::trim(device.product->0).len() == 0 ==> device.list_name(
            language,
        ) == Phrase::UnnamedDevice.say(language),
        device.manufacturer == Some(name) && text::trim(name).len() > 0
            ==> device.manufacturer_name(language) == text::trim(name),
        device.manufacturer is None || text::trim(device.manufacturer->0).len() == 0
            ==> device.manufacturer_name(language) == Phrase::NotProvided.say(language),
        device.serial_number == Some(name) ==> device.serial_name(language) == name,
        device.serial_number is None ==> device.serial_name(language) == Phrase::NotProvided.say(
            language,
        ),
{
    assert(text::trim(Seq::empty()) =~= Seq::empty());
}

/// The one-line description of a device holds its manufacturer, its product, its serial number
/// where it has one, and its location in hexadecimal, in this order.
pub proof fn law_descriptions_hold_everything(
    device: DeviceView,
    manufacturer: Seq<char>,
    product: Seq<char>,
    serial: Seq<char>,
)
    ensures
        ({
            let location = text::padded_hex(device.location_id as nat, 8);
            let named = device.manufacturer == Some(manufacturer) && device.product == Some(
                product,
            );
            &&& named && device.serial_number == Some(serial) ==> device.display() == manufacturer
                + seq![' '] + product + " (serial: "@ + serial + ", location: "@ + location + seq![
                ')',
            ]
            &&& named && device.serial_number is None ==> device.display() == manufacturer + seq![
                ' ',
            ] + product + " (location: "@ + location + seq![')']
            &&& device.manufacturer is None ==> "Unknown"@.is_prefix_of(device.display())
            &&& device.manufacturer == Some(manufacturer) && device.product is None ==> (
            manufacturer + seq![' '] + "Unknown"@).is_prefix_of(device.display())
        }),
{
    reveal_strlit(" ");
    reveal_strlit(")");
    assert(" "@ =~= seq![' ']);
    assert(")"@ =~= seq![')']);
    let shown = device.display();
    let unknown = "Unknown"@;
    if device.manufacturer is None {
        assert(unknown =~= shown.subrange(0, unknown.len() as int));
    }
    if device.manufacturer == Some(manufacturer) && device.product is None {
        let head = manufacturer + seq![' '] + unknown;
        assert(head =~= shown.subrange(0, head.len() as int));
    }
}

/// What the contracts say of a device is what its fields hold.
pub proof fn law_devices_show_their_fields(device: DeviceInfo, text: String)
    ensures
        device@.location_id == device.location_id,
        device.deep_view() == device@,
        device.manufacturer == Some(text) ==> device@.manufacturer == Some(text@),
        device.manufacturer is None ==> device@.manufacturer is None,
        device.product == Some(text) ==> device@.product == Some(text@),
        device.product is None ==> device@.product is None,
        device.serial_number == Some(text) ==> device@.serial_number == Some(text@),
        device.serial_number is None ==> device@.serial_number is None,
{
}

/// Whatever a device tells of itself is in its description, and `Unknown` stands for each of
/// the two names that it does not tell.
pub proof fn law_descriptions_tell_what_is_known(device: DeviceView)
    ensures
        ({
            let manufacturer = match device.manufacturer {
                Some(name) => name,
                None => "Unknown"@,
            };
            let product = match device.product {
                Some(name) => name,
                None => "Unknown"@,
            };
            let names = manufacturer + seq![' '] + product;
            let location = text::padded_hex(device.location_id as nat, 8) + seq![')'];
            &&& device.serial_number matches Some(serial) ==> device.display() == names
                + " (serial: "@ + serial + (", location: "@ + location)
            &&& device.serial_number is None ==> device.display() == names + (" (location: "@
                + location)
        }),
{
    reveal_strlit(" ");
    reveal_strlit(")");
    assert(" "@ =~= seq![' ']);
    assert(")"@ =~= seq![')']);
    let manufacturer = match device.manufacturer {
        Some(name) => name,
        None => "Unknown"@,
    };
    let product = match device.product {
        Some(name) => name,
        None => "Unknown"@,
    };
    let names = manufacturer + seq![' '] + product;
    let location = text::padded_hex(device.location_id as nat, 8) + seq![')'];
    match device.serial_number {
        Some(serial) => {
            assert(device.display() =~= names + " (serial: "@ + serial + (", location: "@
                + location));
        },
        None => {
            assert(device.display() =~= names + (" (location: "@ + location));
        },
    }
}

} // verus!
