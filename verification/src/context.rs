//! The controllers that the driver serves and the contexts of their codecs,
//! kept by handle.

use vstd::prelude::*;
use crate::bus::DeviceContext;
use crate::error::HdaError;
use crate::table::Table;

verus! {

/// Vendor identifier of Intel.
pub const VID_INTEL: u16 = 0x8086;

// Device identifiers of the controllers that the driver serves.
pub const HDA_ICH6: u16 = 0x2668;
pub const HDA_ICH7: u16 = 0x27d8;
pub const HDA_ICH9: u16 = 0x293e;
pub const HDA_HM170: u16 = 0xa170;

/// Whether the driver serves the controller with these identifiers.
pub open spec fn spec_supported(vendor_id: u16, device_id: u16) -> bool {
    vendor_id == VID_INTEL && (device_id == HDA_ICH6 || device_id == HDA_ICH7 || device_id
        == HDA_ICH9 || device_id == HDA_HM170)
}

/// Tells, from the vendor and device identifiers read from its
/// configuration space, whether the driver serves a controller.
pub fn hda_supported(vendor_id: u16, device_id: u16) -> (r: Result<(), HdaError>)
    ensures
        spec_supported(vendor_id, device_id) ==> r == Ok::<(), HdaError>(()),
        !spec_supported(vendor_id, device_id) ==> r == Err::<(), HdaError>(HdaError::Unsupported),
{
    if vendor_id == VID_INTEL && (device_id == HDA_ICH6 || device_id == HDA_ICH7 || device_id
        == HDA_ICH9 || device_id == HDA_HM170) {
        Ok(())
    } else {
        Err(HdaError::Unsupported)
    }
}

/// The contexts of the codecs that the driver serves, each under the handle
/// that its audio output was installed on.
pub struct DeviceContexts {
    table: Table<u64, DeviceContext>,
}

impl DeviceContexts {
    /// The contexts by handle.
    pub closed spec fn view(&self) -> Map<u64, DeviceContext> {
        self.table@
    }

    /// No contexts.
    pub fn new() -> (r: DeviceContexts)
        ensures
            r@ == Map::<u64, DeviceContext>::empty(),
    {
        DeviceContexts { table: Table::new() }
    }

    /// Keeps `device` under `handle`, in place of what was kept there.
    pub fn register_device_context(&mut self, handle: u64, device: DeviceContext)
        ensures
            final(self)@ == old(self)@.insert(handle, device),
    {
        self.table.insert(handle, device);
    }

    /// Forgets what is kept under `handle`.
    pub fn unregister_device_context(&mut self, handle: u64)
        ensures
            final(self)@ == old(self)@.remove(handle),
    {
        self.table.remove(handle);
    }

    /// The context kept under `handle`. A handle that the driver does not
    /// know is an invalid parameter of the call that brought it.
    pub fn from_protocol(&self, handle: u64) -> (r: Result<DeviceContext, HdaError>)
        ensures
            self@.dom().contains(handle) ==> r == Ok::<DeviceContext, HdaError>(self@[handle]),
            !self@.dom().contains(handle) ==> r == Err::<DeviceContext, HdaError>(
                HdaError::InvalidParameter,
            ),
    {
        match self.table.get(handle) {
            Some(device) => Ok(device),
            None => Err(HdaError::InvalidParameter),
        }
    }

    /// Whether the driver may be unloaded: it may not while a codec is still served.
    pub fn unload(&self) -> (r: Result<(), HdaError>)
        ensures
            self@ == Map::<u64, DeviceContext>::empty() ==> r == Ok::<(), HdaError>(()),
            self@ != Map::<u64, DeviceContext>::empty() ==> r == Err::<(), HdaError>(
                HdaError::DeviceError,
            ),
    {
        if self.table.is_empty() {
            Ok(())
        } else {
            Err(HdaError::DeviceError)
        }
    }
}

} // verus!
