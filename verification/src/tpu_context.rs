//! Devices and sessions: what the device manager lists, what it is asked to
//! open, and the handle to a session it opened.

use crate::marshal::{c_safe, text_from_native, text_of, text_to_native, zero_free};
use crate::options::{byte_pairs, decoded, encoded, pairs_map, sendable};
use crate::options::{DeviceOptions, NativeOption};
use crate::EdgeTPUError;
use vstd::prelude::*;
use vstd::utf8::*;

verus! {

/// How a device is attached to the host.
#[derive(Debug, Clone, Copy, PartialEq, Eq, Structural)]
pub enum DeviceType {
    /// Attached over PCI.
    ApexPCI,
    /// Attached over USB.
    ApexUSB,
}

/// The tag that stands for a device type on the native side.
pub open spec fn tag_of_type(device_type: DeviceType) -> u8 {
    match device_type {
        DeviceType::ApexPCI => 0,
        DeviceType::ApexUSB => 1,
    }
}

/// The device type that a native tag stands for, if it stands for one.
pub open spec fn type_of_tag(tag: u8) -> Option<DeviceType> {
    if tag == 0 {
        Some(DeviceType::ApexPCI)
    } else if tag == 1 {
        Some(DeviceType::ApexUSB)
    } else {
        None
    }
}

impl DeviceType {
    /// The tag that stands for this type on the native side.
    pub fn native_tag(self) -> (tag: u8)
        ensures
            tag == tag_of_type(self),
            type_of_tag(tag) == Some(self),
    {
        match self {
            DeviceType::ApexPCI => 0,
            DeviceType::ApexUSB => 1,
        }
    }

    /// The type that a native tag stands for. There are two such tags; for
    /// any other value there is no type.
    pub fn from_native_tag(tag: u8) -> (device_type: Option<DeviceType>)
        ensures
            device_type == type_of_tag(tag),
            device_type is Some <==> tag == 0 || tag == 1,
    {
        if tag == 0 {
            Some(DeviceType::ApexPCI)
        } else if tag == 1 {
            Some(DeviceType::ApexUSB)
        } else {
            None
        }
    }
}

/// A device as the manager lists it: the tag of its type and the bytes of
/// its path.
#[derive(Debug, Clone, PartialEq, Eq)]
pub struct NativeDevice {
    pub type_tag: u8,
    pub path: Vec<u8>,
}

impl View for NativeDevice {
    type V = (u8, Seq<u8>);

    open spec fn view(&self) -> (u8, Seq<u8>) {
        (self.type_tag, self.path@)
    }
}

/// A device that can be opened: how it is attached, and where.
///
/// A record describes a device. It is no session and owns nothing on the
/// native side.
#[derive(Debug, Clone, PartialEq)]
pub struct DeviceRecord {
    pub device_type: DeviceType,
    pub path: String,
}

impl View for DeviceRecord {
    type V = (DeviceType, Seq<char>);

    open spec fn view(&self) -> (DeviceType, Seq<char>) {
        (self.device_type, self.path@)
    }
}

/// The devices of a listing, each as its tag and the bytes of its path.
pub open spec fn listed(listing: Seq<NativeDevice>) -> Seq<(u8, Seq<u8>)> {
    listing.map_values(|d: NativeDevice| d@)
}

/// The records, each as its type and the text of its path.
pub open spec fn described(records: Seq<DeviceRecord>) -> Seq<(DeviceType, Seq<char>)> {
    records.map_values(|r: DeviceRecord| r@)
}

/// Every device of the listing carries the tag of a device type.
pub open spec fn tags_known(listing: Seq<(u8, Seq<u8>)>) -> bool {
    forall|i: int| 0 <= i < listing.len() ==> type_of_tag((#[trigger] listing[i]).0) is Some
}

/// The record that describes a listed device.
pub open spec fn record_of(device: (u8, Seq<u8>)) -> (DeviceType, Seq<char>)
    recommends
        type_of_tag(device.0) is Some,
{
    (type_of_tag(device.0)->0, text_of(device.1))
}

/// The records that describe the devices of a listing, in its order.
pub open spec fn records_of(listing: Seq<(u8, Seq<u8>)>) -> Seq<(DeviceType, Seq<char>)>
    recommends
        tags_known(listing),
{
    listing.map_values(|d: (u8, Seq<u8>)| record_of(d))
}

/// Applying one function to every element of two sequences that hold the
/// same elements gives two sequences that hold the same elements.
proof fn lemma_map_values_same_elements<A, B>(first: Seq<A>, second: Seq<A>, f: spec_fn(A) -> B)
    requires
        first.to_multiset() == second.to_multiset(),
    ensures
        first.len() == second.len(),
        first.map_values(f).to_multiset() == second.map_values(f).to_multiset(),
    decreases first.len(),
{
    broadcast use vstd::seq_lib::group_to_multiset_ensures;

    assert(first.len() == first.to_multiset().len());
    assert(second.len() == second.to_multiset().len());
    if first.len() > 0 {
        let x = first.last();
        let last = first.len() - 1;
        assert(first[last] == x);
        assert(first.to_multiset().count(x) > 0);
        assert(second.contains(x));
        let j = choose|j: int| 0 <= j < second.len() && second[j] == x;
        let first_rest = first.remove(last);
        let second_rest = second.remove(j);
        assert(first_rest.to_multiset() == first.to_multiset().remove(x));
        assert(second_rest.to_multiset() == second.to_multiset().remove(x));
        lemma_map_values_same_elements(first_rest, second_rest, f);
        assert(first.map_values(f) == first_rest.map_values(f).insert(last, f(x)));
        assert(second.map_values(f) == second_rest.map_values(f).insert(j, f(x)));
        assert(first_rest.map_values(f).insert(last, f(x)).to_multiset()
            == first_rest.map_values(f).to_multiset().insert(f(x)));
        assert(second_rest.map_values(f).insert(j, f(x)).to_multiset()
            == second_rest.map_values(f).to_multiset().insert(f(x)));
    }
}

/// Enumeration is stable: two listings that hold the same devices, in
/// whatever order the manager gave them, are described by equally many
/// records, and by the same records in whatever order.
pub proof fn lemma_enumeration_stable(first: Seq<(u8, Seq<u8>)>, second: Seq<(u8, Seq<u8>)>)
    requires
        first.to_multiset() == second.to_multiset(),
    ensures
        records_of(first).len() == records_of(second).len(),
        records_of(first).to_multiset() == records_of(second).to_multiset(),
{
    lemma_map_values_same_elements(first, second, |d: (u8, Seq<u8>)| record_of(d));
}

/// What the device manager is asked to open. There is one form for each of
/// the manager's ways to open a device, from the least to the most specific;
/// all text is carried as bytes that hold no zero.
#[derive(Debug, Clone, PartialEq, Eq)]
pub enum OpenRequest {
    /// Any device, by the manager's own choice.
    Any,
    /// Any device of one type.
    OfType { type_tag: u8 },
    /// The device of one type at one path.
    AtPath { type_tag: u8, path: Vec<u8> },
    /// The device of one type at one path, configured with options before
    /// the session is handed back.
    WithOptions { type_tag: u8, path: Vec<u8>, options: Vec<NativeOption> },
}

/// A session in the form in which an inference engine takes it: the address
/// of the session's native object, typed by the engine and not by this crate.
///
/// The address aliases the session and owns nothing. It is good for as long
/// as some handle to the session lives, which nothing here enforces.
#[derive(Debug, Clone, Copy, PartialEq, Eq, Structural)]
pub struct ExternalContext {
    pub address: usize,
}

/// A handle to a session that the device manager opened.
///
/// The handle stands for the session by the address of its native object,
/// which is never null: a failed attempt to open a device gives an error and
/// no handle. Copies of a handle stand for the same session.
#[derive(Debug)]
pub struct EdgeTpuContext {
    session: usize,
}

impl Clone for EdgeTpuContext {
    /// Another handle to the same session.
    fn clone(&self) -> (copy: Self)
        ensures
            copy.session() == self.session(),
    {
        proof {
            use_type_invariant(self);
        }
        EdgeTpuContext { session: self.session }
    }
}

impl OpenRequest {
    /// Settles the request with what the manager handed back: the address
    /// of the session's native object, or zero where it opened none.
    ///
    /// Whatever was asked for, no session is one and the same failure.
    pub fn complete(self, session: usize) -> (outcome: Result<EdgeTpuContext, EdgeTPUError>)
        ensures
            session == 0 ==> outcome == Err::<EdgeTpuContext, EdgeTPUError>(
                EdgeTPUError::OpenFailed,
            ),
            session != 0 ==> outcome is Ok && outcome->Ok_0.session() == session,
    {
        if session == 0 {
            Err(EdgeTPUError::OpenFailed)
        } else {
            Ok(EdgeTpuContext { session })
        }
    }
}

impl EdgeTpuContext {
    /// The address of the session's native object.
    pub closed spec fn session(&self) -> usize {
        self.session
    }

    #[verifier::type_invariant]
    spec fn attached(&self) -> bool {
        self.session != 0
    }

    /// Reads the manager's listing of the devices it sees: one record for
    /// each device, in the order listed, none for an empty listing.
    ///
    /// A tag that stands for no device type means that the native side and
    /// this crate have drifted apart; such a listing is not accepted.
    pub fn enumerate_devices(listing: &Vec<NativeDevice>) -> (records: Vec<DeviceRecord>)
        requires
            tags_known(listed(listing@)),
        ensures
            described(records@) == records_of(listed(listing@)),
            records@.len() == listing@.len(),
            forall|i: int|
                0 <= i < records@.len() ==> (#[trigger] records@[i]).device_type
                    == DeviceType::ApexPCI || records@[i].device_type == DeviceType::ApexUSB,
    {
        let mut records: Vec<DeviceRecord> = Vec::new();
        let mut i: usize = 0;
        while i < listing.len()
            invariant
                i <= listing@.len(),
                records@.len() == i,
                tags_known(listed(listing@)),
                forall|j: int| 0 <= j < i ==> (#[trigger] records@[j])@ == record_of(listing@[j]@),
            decreases listing@.len() - i,
        {
            assert(type_of_tag(listed(listing@)[i as int].0) is Some);
            let device_type = match DeviceType::from_native_tag(listing[i].type_tag) {
                Some(device_type) => device_type,
                None => unreached(),
            };
            let path = text_from_native(&listing[i].path);
            records.push(DeviceRecord { device_type, path });
            i += 1;
        }
        assert(described(records@) =~= records_of(listed(listing@)));
        records
    }

    /// Asks for any device, by the manager's own choice.
    pub fn open_device() -> (request: OpenRequest)
        ensures
            request == OpenRequest::Any,
    {
        OpenRequest::Any
    }

    /// Asks for any device of the given type.
    pub fn open_device_type(device_type: DeviceType) -> (request: OpenRequest)
        ensures
            request == (OpenRequest::OfType { type_tag: tag_of_type(device_type) }),
    {
        OpenRequest::OfType { type_tag: device_type.native_tag() }
    }

    /// Asks for the device of the given type at the given path.
    pub fn open_device_path(device_type: DeviceType, path: &str) -> (request: OpenRequest)
        requires
            c_safe(path@),
        ensures
            request matches OpenRequest::AtPath { type_tag, path: sent } && type_tag
                == tag_of_type(device_type) && sent@ == encode_utf8(path@) && zero_free(sent@),
    {
        OpenRequest::AtPath { type_tag: device_type.native_tag(), path: text_to_native(path) }
    }

    /// Asks for the device of the given type at the given path, to be
    /// configured with the given options: one native entry for each option.
    pub fn open_device_options(
        device_type: DeviceType,
        path: &str,
        options: &DeviceOptions,
    ) -> (request: OpenRequest)
        requires
            c_safe(path@),
            sendable(options.pairs()),
        ensures
            request matches OpenRequest::WithOptions { type_tag, path: sent, options: entries }
                && type_tag == tag_of_type(device_type) && sent@ == encode_utf8(path@)
                && zero_free(sent@) && byte_pairs(entries@) == encoded(options.pairs()) && (
            forall|i: int|
                0 <= i < entries@.len() ==> zero_free(#[trigger] entries@[i].key@) && zero_free(
                    entries@[i].value@,
                )),
    {
        OpenRequest::WithOptions {
            type_tag: device_type.native_tag(),
            path: text_to_native(path),
            options: options.to_native(),
        }
    }

    /// Whether the session is ready, from the status the native side
    /// answered with: zero for not ready, anything else for ready.
    pub fn is_ready(&self, status: i32) -> (ready: bool)
        ensures
            ready == (status != 0),
    {
        status != 0
    }

    /// The options in effect for the session, from the entries of the
    /// container the native side reported. These may be more than were asked
    /// for when the session was opened.
    pub fn device_options(&self, reply: &Vec<NativeOption>) -> (options: DeviceOptions)
        ensures
            options@ == pairs_map(decoded(byte_pairs(reply@))),
    {
        DeviceOptions::from_native(reply)
    }

    /// The session in the form in which an inference engine takes it. The
    /// address is that of the session's native object and never null.
    ///
    /// Nothing is handed over with it: the session lives only as long as
    /// some handle to it does.
    pub fn to_external_context(&self) -> (context: ExternalContext)
        ensures
            context.address == self.session(),
            context.address != 0,
    {
        proof {
            use_type_invariant(self);
        }
        ExternalContext { address: self.session }
    }
}

} // verus!
