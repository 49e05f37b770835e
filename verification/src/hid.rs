use usb_device::control::{Recipient, Request, RequestType};
use usb_device::UsbDirection;
use vstd::prelude::*;

verus! {

/// The interface class code of human interface devices.
pub const USB_CLASS_HID: u8 = 0x03;

/// The descriptor type of the HID class descriptor.
pub const USB_DESCRIPTOR_HID: u8 = 0x21;

/// The descriptor type of a report descriptor.
pub const USB_DESCRIPTOR_REPORT: u8 = 0x22;

/// The request code of the standard request that reads a descriptor.
pub const GET_DESCRIPTOR: u8 = 6;

/// The report descriptor of a boot keyboard: a byte of modifier bits, a
/// reserved byte, five LED bits that the host may set, and six usage codes.
pub const REPORT_DESCRIPTOR: [u8; 65] = [
    0x05, 0x01,       // Usage Page (Generic Desktop Ctrls)
    0x09, 0x06,       // Usage (Keyboard)
    0xa1, 0x01,       // Collection (Application)
    0x05, 0x07,       // Usage Page (Kbrd/Keypad)
    0x19, 0xe0,       // Usage Minimum (0xE0)
    0x29, 0xe7,       // Usage Maximum (0xE7)
    0x15, 0x00,       // Logical Minimum (0)
    0x25, 0x01,       // Logical Maximum (1)
    0x75, 0x01,       // Report Size (1)
    0x95, 0x08,       // Report Count (8)
    0x81, 0x02,       // Input (Data, Var, Abs)
    0x95, 0x01,       // Report Count (1)
    0x75, 0x08,       // Report Size (8)
    0x81, 0x01,       // Input (Const, Array, Abs)
    0x95, 0x05,       // Report Count (5)
    0x75, 0x01,       // Report Size (1)
    0x05, 0x08,       // Usage Page (LEDs)
    0x19, 0x01,       // Usage Minimum (Num Lock)
    0x29, 0x05,       // Usage Maximum (Kana)
    0x91, 0x02,       // Output (Data, Var, Abs)
    0x95, 0x01,       // Report Count (1)
    0x75, 0x03,       // Report Size (3)
    0x91, 0x01,       // Output (Const, Array, Abs)
    0x95, 0x06,       // Report Count (6)
    0x75, 0x08,       // Report Size (8)
    0x15, 0x00,       // Logical Minimum (0)
    0x26, 0xff, 0x00, // Logical Maximum (255)
    0x05, 0x07,       // Usage Page (Kbrd/Keypad)
    0x19, 0x00,       // Usage Minimum (0x00)
    0x2a, 0xff, 0x00, // Usage Maximum (0xFF)
    0x81, 0x00,       // Input (Data, Array, Abs)
    0xc0,             // End Collection
];

/// A control request, with the fields that `usb-device` gives it. Nothing
/// is assumed of the type beyond its definition there.
#[verifier::external_type_specification]
pub struct ExRequest(Request);

/// The type of a control request, as `usb-device` defines it.
#[verifier::external_type_specification]
pub struct ExRequestType(RequestType);

/// The recipient of a control request, as `usb-device` defines it.
#[verifier::external_type_specification]
pub struct ExRecipient(Recipient);

/// The direction of a transfer, as `usb-device` defines it.
#[verifier::external_type_specification]
pub struct ExUsbDirection(UsbDirection);

/// `usb_device::control::Request::descriptor_type_index`: the high byte
/// and the low byte of the request's `value`, in this order.
pub assume_specification[ Request::descriptor_type_index ](request: &Request) -> (r: (u8, u8))
    ensures
        r.0 == request.value / 256,
        r.1 == request.value % 256,
;

/// The body of the HID class descriptor that follows the interface
/// descriptor: HID version 1.01, no country code, one subordinate
/// descriptor, which is a report descriptor of `report_len` bytes, the
/// length written low byte first.
pub open spec fn class_descriptor(report_len: int) -> Seq<u8> {
    seq![
        0x01u8,
        0x01u8,
        0x00u8,
        0x01u8,
        USB_DESCRIPTOR_REPORT,
        (report_len % 256) as u8,
        (report_len / 256) as u8,
    ]
}

/// Whether `request` asks the interface numbered `interface` for its
/// report descriptor.
pub open spec fn asks_for_report_descriptor(request: Request, interface: u8) -> bool {
    &&& request.recipient == Recipient::Interface
    &&& request.index == interface
    &&& request.request_type == RequestType::Standard
    &&& request.request == GET_DESCRIPTOR
    &&& request.value == 256 * USB_DESCRIPTOR_REPORT
}

/// Builds the body of the HID class descriptor for the report descriptor
/// of this keyboard.
pub fn hid_class_descriptor() -> (body: [u8; 7])
    ensures
        body@ == class_descriptor(REPORT_DESCRIPTOR@.len() as int),
{
    let len: usize = REPORT_DESCRIPTOR.len();
    let low: u8 = (len % 256) as u8;
    let high: u8 = (len / 256) as u8;
    let body: [u8; 7] = [0x01, 0x01, 0x00, 0x01, USB_DESCRIPTOR_REPORT, low, high];
    assert(body@ =~= class_descriptor(REPORT_DESCRIPTOR@.len() as int));
    body
}

/// Decides whether a control transfer to the host is to be answered with
/// the report descriptor.
pub fn is_report_descriptor_request(request: &Request, interface: u8) -> (wanted: bool)
    ensures
        wanted == asks_for_report_descriptor(*request, interface),
{
    let (descriptor_type, descriptor_index) = request.descriptor_type_index();
    matches!(request.recipient, Recipient::Interface) && request.index == interface as u16
        && matches!(request.request_type, RequestType::Standard) && request.request
        == GET_DESCRIPTOR && descriptor_type == USB_DESCRIPTOR_REPORT && descriptor_index == 0
}

} // verus!
