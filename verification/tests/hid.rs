use rfid_keyboard::hid::{
    hid_class_descriptor, is_report_descriptor_request, GET_DESCRIPTOR, REPORT_DESCRIPTOR,
    USB_CLASS_HID, USB_DESCRIPTOR_HID, USB_DESCRIPTOR_REPORT,
};
use usb_device::control::{Recipient, Request, RequestType};
use usb_device::UsbDirection;

fn report_descriptor_request() -> Request {
    Request {
        direction: UsbDirection::In,
        request_type: RequestType::Standard,
        recipient: Recipient::Interface,
        request: Request::GET_DESCRIPTOR,
        value: 0x2200,
        index: 2,
        length: 65,
    }
}

#[test]
fn class_constants_are_those_of_hid() {
    assert_eq!(USB_CLASS_HID, 0x03);
    assert_eq!(USB_DESCRIPTOR_HID, 0x21);
    assert_eq!(USB_DESCRIPTOR_REPORT, 0x22);
    assert_eq!(GET_DESCRIPTOR, Request::GET_DESCRIPTOR);
}

#[test]
fn report_descriptor_describes_a_boot_keyboard() {
    assert_eq!(REPORT_DESCRIPTOR.len(), 65);
    assert_eq!(&REPORT_DESCRIPTOR[..6], &[0x05, 0x01, 0x09, 0x06, 0xa1, 0x01]);
    assert_eq!(&REPORT_DESCRIPTOR[50..55], &[0x15, 0x00, 0x26, 0xff, 0x00]);
    assert_eq!(REPORT_DESCRIPTOR[64], 0xc0);
    let sum: u32 = REPORT_DESCRIPTOR.iter().map(|b| *b as u32).sum();
    assert_eq!(sum, 3755);
}

#[test]
fn class_descriptor_names_the_report_descriptor_and_its_length() {
    assert_eq!(hid_class_descriptor(), [0x01, 0x01, 0x00, 0x01, 0x22, 65, 0]);
}

#[test]
fn request_for_the_report_descriptor_is_recognised() {
    assert!(is_report_descriptor_request(&report_descriptor_request(), 2));
}

#[test]
fn request_to_another_interface_is_not_answered() {
    assert!(!is_report_descriptor_request(&report_descriptor_request(), 0));
    assert!(!is_report_descriptor_request(&report_descriptor_request(), 3));
    let mut request = report_descriptor_request();
    request.index = 0x0102;
    assert!(!is_report_descriptor_request(&request, 2));
}

#[test]
fn request_to_another_recipient_is_not_answered() {
    for recipient in [Recipient::Device, Recipient::Endpoint, Recipient::Other, Recipient::Reserved]
    {
        let mut request = report_descriptor_request();
        request.recipient = recipient;
        assert!(!is_report_descriptor_request(&request, 2));
    }
}

#[test]
fn request_of_another_type_is_not_answered() {
    for request_type in [RequestType::Class, RequestType::Vendor, RequestType::Reserved] {
        let mut request = report_descriptor_request();
        request.request_type = request_type;
        assert!(!is_report_descriptor_request(&request, 2));
    }
}

#[test]
fn other_standard_requests_are_not_answered() {
    for code in [Request::GET_STATUS, Request::SET_DESCRIPTOR, Request::GET_INTERFACE] {
        let mut request = report_descriptor_request();
        request.request = code;
        assert!(!is_report_descriptor_request(&request, 2));
    }
}

#[test]
fn requests_for_other_descriptors_are_not_answered() {
    for value in [0x2201u16, 0x2100, 0x0022, 0x0000, 0x22ff, 0x0100] {
        let mut request = report_descriptor_request();
        request.value = value;
        assert!(!is_report_descriptor_request(&request, 2));
    }
}

#[test]
fn direction_and_length_do_not_matter() {
    let mut request = report_descriptor_request();
    request.direction = UsbDirection::Out;
    request.length = 0;
    assert!(is_report_descriptor_request(&request, 2));
}
