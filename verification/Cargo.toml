[package]
name = "rfid_keyboard"
version = "0.1.0"
edition = "2021"
publish = false

[dependencies]
heapless = "=0.5.6"
usb-device = "=0.2.9"
usbd-serial = "=0.1.1"
stm32-usbd = { version = "=0.3.1", features = ["stm32f103xx"] }
stm32f1xx-hal = { version = "=0.3.0", features = ["stm32f103", "rt"] }
cortex-m = "=0.6.7"
cortex-m-rtfm = { version = "=0.4.3", features = ["timer-queue"] }
embedded-hal = "=0.2.7"
mfrc522 = "=0.2.0"
panic-semihosting = "=0.5.6"
