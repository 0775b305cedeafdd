//! The display-device boundary: the sink capability the scheduler drives,
//! and the identification of supported USB devices.

use vstd::prelude::*;

use crate::framebuffer::FrameBuffer;

verus! {

/// The keyboard vendor id supported devices carry.
pub const STEELSERIES_VENDOR_ID: u16 = 0x1038;

/// A failure of the display sink; unrecoverable for the render loop.
#[derive(Clone, Debug)]
pub struct SinkError {
    pub message: String,
}

/// A device that can receive images to display. Implementations own the
/// transport (USB report, window, network); the scheduler only needs these
/// three operations.
pub trait Device {
    /// Sends a frame buffer to the device.
    fn draw(&mut self, display: &FrameBuffer) -> Result<(), SinkError>;

    /// Clears the whole screen; most devices send an empty frame.
    fn clear(&mut self) -> Result<(), SinkError>;

    /// Tears the device down; nothing is drawn afterwards.
    fn shutdown(&mut self) -> Result<(), SinkError>;
}

/// The product ids this driver has been tried with. A missing entry does not
/// mean a device cannot work, only that nobody has added it yet.
#[derive(Clone, Copy, Debug, PartialEq, Eq, Structural)]
pub enum SupportedDevice {
    ApexProTKL,
    Apex7,
    ApexPro,
    Apex7TKL,
    Apex5,
}

impl SupportedDevice {
    /// The USB product id of each supported device.
    pub open spec fn spec_product_id(self) -> u16 {
        match self {
            SupportedDevice::ApexProTKL => 0x1614,
            SupportedDevice::Apex7 => 0x1612,
            SupportedDevice::ApexPro => 0x1610,
            SupportedDevice::Apex7TKL => 0x1618,
            SupportedDevice::Apex5 => 0x161C,
        }
    }

    /// The supported device with the given product id, if any.
    pub fn from_product_id(product: u16) -> (r: Option<SupportedDevice>)
        ensures
            r == if product == 0x1614 {
                Some(SupportedDevice::ApexProTKL)
            } else if product == 0x1612 {
                Some(SupportedDevice::Apex7)
            } else if product == 0x1610 {
                Some(SupportedDevice::ApexPro)
            } else if product == 0x1618 {
                Some(SupportedDevice::Apex7TKL)
            } else if product == 0x161C {
                Some(SupportedDevice::Apex5)
            } else {
                None::<SupportedDevice>
            },
            r is Some ==> r.unwrap().spec_product_id() == product,
    {
        if product == 0x1614 {
            Some(SupportedDevice::ApexProTKL)
        } else if product == 0x1612 {
            Some(SupportedDevice::Apex7)
        } else if product == 0x1610 {
            Some(SupportedDevice::ApexPro)
        } else if product == 0x1618 {
            Some(SupportedDevice::Apex7TKL)
        } else if product == 0x161C {
            Some(SupportedDevice::Apex5)
        } else {
            None
        }
    }
}

/// Whether a USB listing entry is the display interface of a supported
/// keyboard: the vendor id matches, the product id is known, and it is the
/// first interface (the one that accepts frame reports).
pub fn is_supported_device(vendor: u16, product: u16, interface: i32) -> (r: bool)
    ensures
        r == (vendor == STEELSERIES_VENDOR_ID && (product == 0x1614 || product == 0x1612
            || product == 0x1610 || product == 0x1618 || product == 0x161C) && interface == 1),
{
    if vendor != STEELSERIES_VENDOR_ID {
        return false;
    }
    if interface != 1 {
        return false;
    }
    match SupportedDevice::from_product_id(product) {
        Some(_) => true,
        None => false,
    }
}

} // verus!
