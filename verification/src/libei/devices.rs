//! The devices that libei offers, what its events do to them, and what an input event makes
//! them do.

use crate::input_event::{Event, F64Bits, KeyboardEvent, PointerEvent};
use vstd::prelude::*;

verus! {

/// For each interface, the device that was last offered with it
///
/// A device goes by a number, under which the connection to libei keeps it.
#[derive(Debug, Clone, Copy)]
pub struct Devices {
    pub pointer: Option<u64>,
    pub scroll: Option<u64>,
    pub button: Option<u64>,
    pub keyboard: Option<u64>,
}

/// Which interfaces a device has
#[derive(Debug, Clone, Copy)]
pub struct Interfaces {
    pub pointer: bool,
    pub keyboard: bool,
    pub scroll: bool,
    pub button: bool,
}

/// What a device can be bound to do
#[derive(Debug, Clone, Copy, PartialEq, Eq, Structural)]
pub enum DeviceCapability {
    Pointer,
    PointerAbsolute,
    Keyboard,
    Touch,
    Scroll,
    Button,
}

/// An event of libei that a sender gets
///
/// A seat goes by a number, as a device does.
#[derive(Debug, Clone, Copy)]
pub enum EiEvent {
    Disconnected,
    SeatAdded { seat: u64 },
    SeatRemoved,
    DeviceAdded { device: u64, interfaces: Interfaces },
    DeviceRemoved,
    DevicePaused,
    DeviceResumed { device: u64 },
    KeyboardModifiers,
}

/// What is to be done about an event of libei, before flushing the connection
#[derive(Debug, Clone, Copy)]
pub enum EiReply {
    /// Nothing
    Nothing,
    /// Bind the capabilities to the seat
    BindCapabilities { seat: u64, capabilities: [DeviceCapability; 6] },
    /// Let the device emulate from now on
    StartEmulating { device: u64, last_serial: u32, sequence: u32 },
}

/// Why emulation failed
#[derive(Debug)]
pub enum EmulationError<E> {
    /// libei has closed the connection
    EndOfStream,
    /// The desktop reported an error
    Desktop(E),
}

/// The state of a mouse button
#[derive(Debug, Clone, Copy, PartialEq, Eq, Structural)]
pub enum ButtonState {
    Released,
    Press,
}

/// The state of a key
#[derive(Debug, Clone, Copy, PartialEq, Eq, Structural)]
pub enum KeyState {
    Released,
    Press,
}

#[allow(inconsistent_fields)]
/// What a device is asked to do
#[derive(Debug, Clone, Copy)]
pub enum Request {
    /// Move the pointer
    MotionRelative { dx: F64Bits, dy: F64Bits },
    /// Press or release a mouse button
    Button { button: u32, state: ButtonState },
    /// Scroll smoothly
    Scroll { x: F64Bits, y: F64Bits },
    /// Scroll in ticks
    ScrollDiscrete { x: i32, y: i32 },
    /// Press or release a key
    Key { key: u32, state: KeyState },
}

/// A request to a device, to be followed by a frame of that device
#[derive(Debug, Clone, Copy)]
pub struct Emit {
    pub device: u64,
    pub request: Request,
}

/// The double zero.
pub open spec fn zero() -> F64Bits {
    F64Bits(0)
}

/// What an input event asks for, if it asks for anything.
pub open spec fn requested(event: Event) -> Option<Request> {
    match event {
        Event::Pointer(PointerEvent::Motion { dx, dy, .. }) => Some(
            Request::MotionRelative { dx, dy },
        ),
        Event::Pointer(PointerEvent::Button { button, state, .. }) => Some(
            Request::Button {
                button,
                state: if state == 0 {
                    ButtonState::Released
                } else {
                    ButtonState::Press
                },
            },
        ),
        Event::Pointer(PointerEvent::Axis { axis, value, .. }) => Some(
            if axis == 0 {
                Request::Scroll { x: zero(), y: value }
            } else {
                Request::Scroll { x: value, y: zero() }
            },
        ),
        Event::Pointer(PointerEvent::AxisDiscrete120 { axis, value }) => Some(
            if axis == 0 {
                Request::ScrollDiscrete { x: 0, y: value }
            } else {
                Request::ScrollDiscrete { x: value, y: 0 }
            },
        ),
        Event::Keyboard(KeyboardEvent::Key { key, state, .. }) => Some(
            Request::Key {
                key,
                state: if state == 0 {
                    KeyState::Released
                } else {
                    KeyState::Press
                },
            },
        ),
        Event::Keyboard(KeyboardEvent::Modifiers { .. }) => None,
    }
}

impl Devices {
    /// The device that carries out a request, if there is one.
    pub open spec fn serving(self, request: Request) -> Option<u64> {
        match request {
            Request::MotionRelative { .. } => self.pointer,
            Request::Button { .. } => self.button,
            Request::Scroll { .. } => self.scroll,
            Request::ScrollDiscrete { .. } => self.scroll,
            Request::Key { .. } => self.keyboard,
        }
    }

    /// What an input event makes the devices do.
    pub open spec fn emitted(self, event: Event) -> Option<Emit> {
        match requested(event) {
            Some(request) => match self.serving(request) {
                Some(device) => Some(Emit { device, request }),
                None => None,
            },
            None => None,
        }
    }

    /// The devices once another one is offered.
    pub open spec fn with_device(self, device: u64, interfaces: Interfaces) -> Devices {
        Devices {
            pointer: if interfaces.pointer {
                Some(device)
            } else {
                self.pointer
            },
            scroll: if interfaces.scroll {
                Some(device)
            } else {
                self.scroll
            },
            button: if interfaces.button {
                Some(device)
            } else {
                self.button
            },
            keyboard: if interfaces.keyboard {
                Some(device)
            } else {
                self.keyboard
            },
        }
    }

    /// The devices after an event of libei.
    pub open spec fn after(self, event: EiEvent) -> Devices {
        match event {
            EiEvent::DeviceAdded { device, interfaces } => self.with_device(device, interfaces),
            _ => self,
        }
    }

    /// What an input event makes the devices do.
    pub fn emit(&self, event: Event) -> (result: Option<Emit>)
        ensures
            result == self.emitted(event),
    {
        match event {
            Event::Pointer(p) => match p {
                PointerEvent::Motion { time: _, dx, dy } => match self.pointer {
                    Some(device) => Some(
                        Emit { device, request: Request::MotionRelative { dx, dy } },
                    ),
                    None => None,
                },
                PointerEvent::Button { time: _, button, state } => match self.button {
                    Some(device) => {
                        let state = match state {
                            0 => ButtonState::Released,
                            _ => ButtonState::Press,
                        };
                        Some(Emit { device, request: Request::Button { button, state } })
                    },
                    None => None,
                },
                PointerEvent::Axis { time: _, axis, value } => match self.scroll {
                    Some(device) => {
                        let request = match axis {
                            0 => Request::Scroll { x: F64Bits(0), y: value },
                            _ => Request::Scroll { x: value, y: F64Bits(0) },
                        };
                        Some(Emit { device, request })
                    },
                    None => None,
                },
                PointerEvent::AxisDiscrete120 { axis, value } => match self.scroll {
                    Some(device) => {
                        let request = match axis {
                            0 => Request::ScrollDiscrete { x: 0, y: value },
                            _ => Request::ScrollDiscrete { x: value, y: 0 },
                        };
                        Some(Emit { device, request })
                    },
                    None => None,
                },
            },
            Event::Keyboard(k) => match k {
                KeyboardEvent::Key { time: _, key, state } => match self.keyboard {
                    Some(device) => {
                        let state = match state {
                            0 => KeyState::Released,
                            _ => KeyState::Press,
                        };
                        Some(Emit { device, request: Request::Key { key, state } })
                    },
                    None => None,
                },
                KeyboardEvent::Modifiers { .. } => None,
            },
        }
    }

    /// Takes in what the connection to libei brings next, which is nothing once it has
    /// ended, and says what is to be done about it.
    pub fn ei_event_handler<E>(&mut self, next: Option<Result<EiEvent, E>>) -> (result: Result<
        EiReply,
        EmulationError<E>,
    >)
        ensures
            result == ei_reply(next),
            *final(self) == match next {
                Some(Ok(event)) => old(self).after(event),
                _ => *old(self),
            },
    {
        match next {
            None => Err(EmulationError::EndOfStream),
            Some(Err(e)) => Err(EmulationError::Desktop(e)),
            Some(Ok(event)) => match event {
                EiEvent::Disconnected => Err(EmulationError::EndOfStream),
                EiEvent::SeatAdded { seat } => Ok(
                    EiReply::BindCapabilities { seat, capabilities: capabilities() },
                ),
                EiEvent::SeatRemoved => Ok(EiReply::Nothing),
                EiEvent::DeviceAdded { device, interfaces } => {
                    if interfaces.pointer {
                        self.pointer = Some(device);
                    }
                    if interfaces.keyboard {
                        self.keyboard = Some(device);
                    }
                    if interfaces.scroll {
                        self.scroll = Some(device);
                    }
                    if interfaces.button {
                        self.button = Some(device);
                    }
                    Ok(EiReply::Nothing)
                },
                EiEvent::DeviceRemoved => Ok(EiReply::Nothing),
                EiEvent::DevicePaused => Ok(EiReply::Nothing),
                EiEvent::DeviceResumed { device } => Ok(
                    EiReply::StartEmulating { device, last_serial: 0, sequence: 0 },
                ),
                EiEvent::KeyboardModifiers => Ok(EiReply::Nothing),
            },
        }
    }
}

impl Default for Devices {
    fn default() -> (result: Devices)
        ensures
            result == (Devices { pointer: None, scroll: None, button: None, keyboard: None }),
    {
        Devices { pointer: None, scroll: None, button: None, keyboard: None }
    }
}

/// What is to be done about what the connection to libei brings.
pub open spec fn ei_reply<E>(next: Option<Result<EiEvent, E>>) -> Result<
    EiReply,
    EmulationError<E>,
> {
    match next {
        None => Err(EmulationError::EndOfStream),
        Some(Err(e)) => Err(EmulationError::Desktop(e)),
        Some(Ok(EiEvent::Disconnected)) => Err(EmulationError::EndOfStream),
        Some(Ok(EiEvent::SeatAdded { seat })) => Ok(
            EiReply::BindCapabilities { seat, capabilities: bound_capabilities() },
        ),
        Some(Ok(EiEvent::DeviceResumed { device })) => Ok(
            EiReply::StartEmulating { device, last_serial: 0, sequence: 0 },
        ),
        Some(Ok(_)) => Ok(EiReply::Nothing),
    }
}

/// What is bound to every seat.
pub open spec fn bound_capabilities() -> [DeviceCapability; 6] {
    [
        DeviceCapability::Pointer,
        DeviceCapability::PointerAbsolute,
        DeviceCapability::Keyboard,
        DeviceCapability::Touch,
        DeviceCapability::Scroll,
        DeviceCapability::Button,
    ]
}

/// What is bound to every seat.
pub fn capabilities() -> (result: [DeviceCapability; 6])
    ensures
        result == bound_capabilities(),
        result@ == seq![
            DeviceCapability::Pointer,
            DeviceCapability::PointerAbsolute,
            DeviceCapability::Keyboard,
            DeviceCapability::Touch,
            DeviceCapability::Scroll,
            DeviceCapability::Button,
        ],
{
    let result = [
        DeviceCapability::Pointer,
        DeviceCapability::PointerAbsolute,
        DeviceCapability::Keyboard,
        DeviceCapability::Touch,
        DeviceCapability::Scroll,
        DeviceCapability::Button,
    ];
    assert(result@ =~= seq![
        DeviceCapability::Pointer,
        DeviceCapability::PointerAbsolute,
        DeviceCapability::Keyboard,
        DeviceCapability::Touch,
        DeviceCapability::Scroll,
        DeviceCapability::Button,
    ]);
    result
}

/// The device that was offered last with an interface is the one that serves it.
pub proof fn law_latest_device_serves(
    devices: Devices,
    device: u64,
    interfaces: Interfaces,
    request: Request,
)
    ensures
        devices.after(EiEvent::DeviceAdded { device, interfaces }).serving(request) == if (
        match request {
            Request::MotionRelative { .. } => interfaces.pointer,
            Request::Button { .. } => interfaces.button,
            Request::Scroll { .. } => interfaces.scroll,
            Request::ScrollDiscrete { .. } => interfaces.scroll,
            Request::Key { .. } => interfaces.keyboard,
        }) {
            Some(device)
        } else {
            devices.serving(request)
        },
{
}

/// Once an interface has a device, no event of libei leaves it without one.
pub proof fn law_devices_are_never_lost(devices: Devices, event: EiEvent, request: Request)
    requires
        devices.serving(request) is Some,
    ensures
        devices.after(event).serving(request) is Some,
{
}

/// A change of modifiers makes no device do anything, and neither does any other event as
/// long as no device serves it.
pub proof fn law_nothing_is_emitted_unserved(devices: Devices, event: Event)
    ensures
        devices.emitted(event) is None <==> requested(event) is None || devices.serving(
            requested(event)->0,
        ) is None,
        requested(event) is None <==> (event matches Event::Keyboard(k) && k is Modifiers),
{
}

/// A motion goes to the pointer with the distances of the event, and goes nowhere without one.
pub proof fn law_motion_is_passed_on(devices: Devices, time: u32, dx: F64Bits, dy: F64Bits)
    ensures
        ({
            let emit = devices.emitted(Event::Pointer(PointerEvent::Motion { time, dx, dy }));
            &&& emit is Some <==> devices.pointer is Some
            &&& emit matches Some(e) ==> {
                &&& devices.pointer == Some(e.device)
                &&& e.request matches Request::MotionRelative { dx: x, dy: y }
                &&& x == dx
                &&& y == dy
            }
        }),
{
}

/// Scrolling goes to the scroll device and scrolls by the amount of the event along the axis of
/// the event, vertically if that is zero and horizontally otherwise, and not at all along the
/// other.
pub proof fn law_scrolling_is_passed_on(devices: Devices, time: u32, axis: u8, value: F64Bits)
    ensures
        ({
            let emit = devices.emitted(Event::Pointer(PointerEvent::Axis { time, axis, value }));
            &&& emit is Some <==> devices.scroll is Some
            &&& emit matches Some(e) ==> {
                &&& devices.scroll == Some(e.device)
                &&& e.request matches Request::Scroll { x, y }
                &&& axis == 0 ==> x.0 == 0 && y == value
                &&& axis != 0 ==> x == value && y.0 == 0
            }
        }),
{
}

/// A tick of the wheel goes to the scroll device and scrolls by the amount of the event, in
/// whichever direction: its two parts add up to the amount, and the part across the axis of the
/// event is zero.
pub proof fn law_ticks_are_passed_on(devices: Devices, axis: u8, value: i32)
    ensures
        ({
            let emit = devices.emitted(
                Event::Pointer(PointerEvent::AxisDiscrete120 { axis, value }),
            );
            &&& emit is Some <==> devices.scroll is Some
            &&& emit matches Some(e) ==> {
                &&& devices.scroll == Some(e.device)
                &&& e.request matches Request::ScrollDiscrete { x, y }
                &&& x + y == value
                &&& axis == 0 ==> x == 0
                &&& axis != 0 ==> y == 0
            }
        }),
{
}

/// A mouse button goes to the button device by its code; it is released if the state of the
/// event is zero, and pressed otherwise.
pub proof fn law_buttons_are_passed_on(devices: Devices, time: u32, button: u32, state: u32)
    ensures
        ({
            let emit = devices.emitted(
                Event::Pointer(PointerEvent::Button { time, button, state }),
            );
            &&& emit is Some <==> devices.button is Some
            &&& emit matches Some(e) ==> {
                &&& devices.button == Some(e.device)
                &&& e.request matches Request::Button { button: code, state: pressed }
                &&& code == button
                &&& pressed is Released <==> state == 0
            }
        }),
{
}

/// A key goes to the keyboard by its code; it is released if the state of the event is zero, and
/// pressed otherwise.
pub proof fn law_keys_are_passed_on(devices: Devices, time: u32, key: u32, state: u8)
    ensures
        ({
            let emit = devices.emitted(Event::Keyboard(KeyboardEvent::Key { time, key, state }));
            &&& emit is Some <==> devices.keyboard is Some
            &&& emit matches Some(e) ==> {
                &&& devices.keyboard == Some(e.device)
                &&& e.request matches Request::Key { key: code, state: pressed }
                &&& code == key
                &&& pressed is Released <==> state == 0
            }
        }),
{
}

/// A change of modifiers makes no device do anything.
pub proof fn law_modifiers_are_not_passed_on(
    devices: Devices,
    depressed: u32,
    latched: u32,
    locked: u32,
    group: u32,
)
    ensures
        devices.emitted(
            Event::Keyboard(KeyboardEvent::Modifiers { depressed, latched, locked, group }),
        ) is None,
{
}

/// Only a device that is offered changes which device serves an interface: every other event of
/// libei leaves all four as they are.
pub proof fn law_only_offers_change_devices(devices: Devices, event: EiEvent)
    ensures
        !(event is DeviceAdded) ==> {
            &&& devices.after(event).pointer == devices.pointer
            &&& devices.after(event).scroll == devices.scroll
            &&& devices.after(event).button == devices.button
            &&& devices.after(event).keyboard == devices.keyboard
        },
{
}

/// An offered device takes over the interfaces that it has, and no other.
pub proof fn law_offers_change_their_interfaces(
    devices: Devices,
    device: u64,
    interfaces: Interfaces,
)
    ensures
        ({
            let after = devices.after(EiEvent::DeviceAdded { device, interfaces });
            &&& interfaces.pointer ==> after.pointer == Some(device)
            &&& !interfaces.pointer ==> after.pointer == devices.pointer
            &&& interfaces.scroll ==> after.scroll == Some(device)
            &&& !interfaces.scroll ==> after.scroll == devices.scroll
            &&& interfaces.button ==> after.button == Some(device)
            &&& !interfaces.button ==> after.button == devices.button
            &&& interfaces.keyboard ==> after.keyboard == Some(device)
            &&& !interfaces.keyboard ==> after.keyboard == devices.keyboard
        }),
{
}

impl Devices {
    /// The devices after some events of libei.
    pub open spec fn after_all(self, events: Seq<EiEvent>) -> Devices
        decreases events.len(),
    {
        if events.len() == 0 {
            self
        } else {
            self.after_all(events.drop_last()).after(events.last())
        }
    }
}

/// A device that serves an interface was offered with it, unless it served it from the start.
pub proof fn law_serving_devices_were_offered(devices: Devices, events: Seq<EiEvent>)
    ensures
        ({
            let now = devices.after_all(events);
            &&& now.pointer != devices.pointer ==> exists|i: int|
                0 <= i < events.len() && (#[trigger] events[i] matches EiEvent::DeviceAdded {
                    device,
                    interfaces,
                } && interfaces.pointer && now.pointer == Some(device))
            &&& now.scroll != devices.scroll ==> exists|i: int|
                0 <= i < events.len() && (#[trigger] events[i] matches EiEvent::DeviceAdded {
                    device,
                    interfaces,
                } && interfaces.scroll && now.scroll == Some(device))
            &&& now.button != devices.button ==> exists|i: int|
                0 <= i < events.len() && (#[trigger] events[i] matches EiEvent::DeviceAdded {
                    device,
                    interfaces,
                } && interfaces.button && now.button == Some(device))
            &&& now.keyboard != devices.keyboard ==> exists|i: int|
                0 <= i < events.len() && (#[trigger] events[i] matches EiEvent::DeviceAdded {
                    device,
                    interfaces,
                } && interfaces.keyboard && now.keyboard == Some(device))
        }),
    decreases events.len(),
{
    if events.len() > 0 {
        let earlier = events.drop_last();
        law_serving_devices_were_offered(devices, earlier);
        assert(events.last() == events[events.len() - 1]);
        assert forall|i: int| 0 <= i < earlier.len() implies #[trigger] earlier[i] == events[i] by {
        }
        let before = devices.after_all(earlier);
        if before.pointer != devices.pointer {
            let i = choose|i: int|
                0 <= i < earlier.len() && (#[trigger] earlier[i] matches EiEvent::DeviceAdded {
                    device,
                    interfaces,
                } && interfaces.pointer && before.pointer == Some(device));
            assert(events[i] == earlier[i]);
        }
        if before.scroll != devices.scroll {
            let i = choose|i: int|
                0 <= i < earlier.len() && (#[trigger] earlier[i] matches EiEvent::DeviceAdded {
                    device,
                    interfaces,
                } && interfaces.scroll && before.scroll == Some(device));
            assert(events[i] == earlier[i]);
        }
        if before.button != devices.button {
            let i = choose|i: int|
                0 <= i < earlier.len() && (#[trigger] earlier[i] matches EiEvent::DeviceAdded {
                    device,
                    interfaces,
                } && interfaces.button && before.button == Some(device));
            assert(events[i] == earlier[i]);
        }
        if before.keyboard != devices.keyboard {
            let i = choose|i: int|
                0 <= i < earlier.len() && (#[trigger] earlier[i] matches EiEvent::DeviceAdded {
                    device,
                    interfaces,
                } && interfaces.keyboard && before.keyboard == Some(device));
            assert(events[i] == earlier[i]);
        }
    }
}

/// Listening ends when the connection does, by itself or by an event, and with the error of the
/// desktop if there is one; nothing else ends it.
pub proof fn law_listening_ends_with_the_connection<E>(next: Option<Result<EiEvent, E>>)
    ensures
        ei_reply(next) is Err <==> {
            ||| next is None
            ||| next matches Some(result) && (result is Err || result->Ok_0 is Disconnected)
        },
        next matches Some(Err(e)) ==> ei_reply(next) == Err::<EiReply, EmulationError<E>>(
            EmulationError::Desktop(e),
        ),
        ei_reply(next) == Err::<EiReply, EmulationError<E>>(EmulationError::EndOfStream) <==> {
            ||| next is None
            ||| next == Some(Ok::<EiEvent, E>(EiEvent::Disconnected))
        },
{
}

/// A seat that comes is bound and a device that resumes starts to emulate, and no other event is
/// answered with either.
pub proof fn law_seats_are_bound_and_devices_started<E>(event: EiEvent)
    ensures
        ei_reply(Some(Ok::<EiEvent, E>(event))) matches Ok(EiReply::BindCapabilities { .. })
            <==> event is SeatAdded,
        ei_reply(Some(Ok::<EiEvent, E>(event))) matches Ok(EiReply::StartEmulating { .. })
            <==> event is DeviceResumed,
        event matches EiEvent::SeatAdded { seat: new } ==> {
            &&& ei_reply(Some(Ok::<EiEvent, E>(event))) matches Ok(
                EiReply::BindCapabilities { seat, .. },
            )
            &&& seat == new
        },
        event matches EiEvent::DeviceResumed { device: resumed } ==> {
            &&& ei_reply(Some(Ok::<EiEvent, E>(event))) matches Ok(
                EiReply::StartEmulating { device, last_serial, sequence },
            )
            &&& device == resumed
            &&& last_serial == 0
            &&& sequence == 0
        },
{
}

/// Every capability is bound to a seat that comes, and none twice.
pub proof fn law_every_capability_is_bound<E>(seat: u64, capability: DeviceCapability)
    ensures
        ei_reply(Some(Ok::<EiEvent, E>(EiEvent::SeatAdded { seat }))) matches Ok(
            EiReply::BindCapabilities { capabilities, .. },
        ) && capabilities@.contains(capability) && capabilities@.no_duplicates(),
{
    let bound = bound_capabilities();
    assert(bound@ =~= seq![
        DeviceCapability::Pointer,
        DeviceCapability::PointerAbsolute,
        DeviceCapability::Keyboard,
        DeviceCapability::Touch,
        DeviceCapability::Scroll,
        DeviceCapability::Button,
    ]);
    assert(bound@[0] is Pointer && bound@[1] is PointerAbsolute && bound@[2] is Keyboard
        && bound@[3] is Touch && bound@[4] is Scroll && bound@[5] is Button);
}

} // verus!
