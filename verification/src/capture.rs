//! The state of promiscuous capture: whether it runs, on which interface,
//! what it has counted and what went wrong last. The capture driver itself
//! is the application's; this module decides what each of its events means.
use crate::source::text_of;
use vstd::prelude::*;
use vstd::string::*;

verus! {

/// A device that frames can be captured from.
#[derive(Debug, Clone)]
pub struct CaptureInterface {
    pub name: String,
    pub description: Option<String>,
}

/// What is reported of capture.
#[derive(Debug, Clone)]
pub struct SnifferStatus {
    pub enabled: bool,
    pub interface: Option<String>,
    pub npcap_available: bool,
    pub packets_captured: u64,
    pub error: Option<String>,
}

/// The state of capture.
#[derive(Debug, Clone)]
pub struct SnifferState {
    pub enabled: bool,
    pub interface: Option<String>,
    pub packets_captured: u64,
    pub error: Option<String>,
    /// Set to ask the capture loop to end at its next tick.
    pub stop_flag: bool,
}

/// Why a request to start capture was turned down.
#[derive(Debug, Clone, Copy, PartialEq, Eq, Structural)]
pub enum CaptureRefusal {
    /// No capture driver is present.
    DriverMissing,
    /// No interface was named and none is known.
    NoInterfaces,
    /// The interface that was named is not among the known ones.
    UnknownInterface,
    /// Capture runs already.
    AlreadyRunning,
}

/// What the capture loop tells of itself.
#[derive(Debug, Clone)]
pub enum CaptureEvent {
    /// The devices could not be listed; the driver's words.
    ListFailed(String),
    /// No device has the name that was asked for.
    InterfaceMissing(String),
    /// The device could not be opened.
    OpenFailed(String),
    /// Capture could not be started on the open device.
    StartFailed(String),
    /// The filter was refused.
    FilterFailed(String),
    /// Capture runs, with its filter in place.
    Started,
    /// A frame was captured.
    FrameCaptured,
    /// No frame came within the timeout.
    TimedOut,
    /// Capture broke down.
    CaptureFailed(String),
}

/// What the capture loop is to do next.
#[derive(Debug, Clone, Copy, PartialEq, Eq, Structural)]
pub enum CaptureAction {
    Continue,
    Stop,
}

/// The message that is kept for an event that reports a failure.
pub open spec fn failure_text(event: CaptureEvent) -> Option<Seq<char>> {
    match event {
        CaptureEvent::ListFailed(why) => Some("Failed to list devices: "@ + why@),
        CaptureEvent::InterfaceMissing(name) => Some("Interface not found: "@ + name@),
        CaptureEvent::OpenFailed(why) => Some("Failed to open device: "@ + why@),
        CaptureEvent::StartFailed(why) => Some("Failed to start capture: "@ + why@),
        CaptureEvent::FilterFailed(why) => Some("Failed to set filter: "@ + why@),
        CaptureEvent::CaptureFailed(why) => Some("Capture error: "@ + why@),
        _ => None,
    }
}

/// The filter that restricts capture to the two protocol ports.
pub fn capture_filter() -> (filter: String)
    ensures
        filter@ == "udp port 6454 or udp port 5568"@,
{
    String::from_str("udp port 6454 or udp port 5568")
}

/// Whether a capture driver is part of this library: it is not, capture is
/// available only where the application brings a driver.
pub fn is_npcap_available() -> (available: bool)
    ensures
        !available,
{
    false
}

/// The interfaces that this library can capture from by itself: none.
pub fn list_capture_interfaces() -> (interfaces: Vec<CaptureInterface>)
    ensures
        interfaces@.len() == 0,
{
    Vec::new()
}

/// Some interface of the list has the name `name`.
pub open spec fn has_interface(interfaces: Seq<CaptureInterface>, name: Seq<char>) -> bool {
    exists|i: int| 0 <= i < interfaces.len() && (#[trigger] interfaces[i]).name@ == name
}

/// Whether an interface of the list has the name `name`.
pub fn knows_interface(interfaces: &Vec<CaptureInterface>, name: &String) -> (known: bool)
    ensures
        known == has_interface(interfaces@, name@),
{
    let mut i: usize = 0;
    while i < interfaces.len()
        invariant
            i <= interfaces.len(),
            forall|k: int| 0 <= k < i ==> (#[trigger] interfaces@[k]).name@ != name@,
        decreases interfaces.len() - i,
    {
        if interfaces[i].name == *name {
            return true;
        }
        i += 1;
    }
    false
}

fn labelled(label: &str, text: &String) -> (message: String)
    ensures
        message@ == label@ + text@,
{
    let mut message = String::from_str(label);
    message.append(text.as_str());
    message
}

impl SnifferState {
    /// Capture is off, nothing has been counted and nothing has gone wrong.
    pub fn new() -> (state: Self)
        ensures
            !state.enabled,
            state.interface is None,
            state.packets_captured == 0,
            state.error is None,
            !state.stop_flag,
    {
        SnifferState {
            enabled: false,
            interface: None,
            packets_captured: 0,
            error: None,
            stop_flag: false,
        }
    }

    /// The status to report, given whether a capture driver is present.
    pub fn get_status(&self, driver_available: bool) -> (status: SnifferStatus)
        ensures
            status.enabled == self.enabled,
            text_of(status.interface) == text_of(self.interface),
            status.npcap_available == driver_available,
            status.packets_captured == self.packets_captured,
            text_of(status.error) == text_of(self.error),
    {
        SnifferStatus {
            enabled: self.enabled,
            interface: match &self.interface {
                Some(name) => Some(name.clone()),
                None => None,
            },
            npcap_available: driver_available,
            packets_captured: self.packets_captured,
            error: match &self.error {
                Some(text) => Some(text.clone()),
                None => None,
            },
        }
    }

    /// The answer that a request to start capture gets. It is refused
    /// without a driver, without any interface to fall back on when none is
    /// named, for a name that no known interface has, and while capture
    /// runs, in this order.
    pub open spec fn start_refusal(
        self,
        driver_available: bool,
        interface: Option<String>,
        interfaces: Seq<CaptureInterface>,
    ) -> Option<CaptureRefusal> {
        if !driver_available {
            Some(CaptureRefusal::DriverMissing)
        } else if interface is None && interfaces.len() == 0 {
            Some(CaptureRefusal::NoInterfaces)
        } else if interface matches Some(wanted) && !has_interface(interfaces, wanted@) {
            Some(CaptureRefusal::UnknownInterface)
        } else if self.enabled {
            Some(CaptureRefusal::AlreadyRunning)
        } else {
            None
        }
    }

    /// Handles a request to start capture on the named interface, or on the
    /// first known one if none is named. A refused request changes nothing;
    /// a granted one marks capture as running from a count of zero and
    /// returns the name of the interface to open.
    pub fn request_start(
        &mut self,
        driver_available: bool,
        interface: Option<String>,
        interfaces: &Vec<CaptureInterface>,
    ) -> (granted: Result<String, CaptureRefusal>)
        ensures
            match old(self).start_refusal(driver_available, interface, interfaces@) {
                Some(refusal) => granted == Err::<String, CaptureRefusal>(refusal) && *final(self)
                    == *old(self),
                None => {
                    &&& granted matches Ok(name)
                    &&& name@ == match interface {
                        Some(wanted) => wanted@,
                        None => interfaces@[0].name@,
                    }
                    &&& has_interface(interfaces@, name@)
                    &&& final(self).enabled
                    &&& text_of(final(self).interface) == Some(name@)
                    &&& !final(self).stop_flag
                    &&& final(self).packets_captured == 0
                    &&& final(self).error == old(self).error
                },
            },
    {
        if !driver_available {
            return Err(CaptureRefusal::DriverMissing);
        }
        let name = match interface {
            Some(wanted) => {
                if !knows_interface(interfaces, &wanted) {
                    return Err(CaptureRefusal::UnknownInterface);
                }
                wanted
            },
            None => {
                if interfaces.len() == 0 {
                    return Err(CaptureRefusal::NoInterfaces);
                }
                interfaces[0].name.clone()
            },
        };
        if self.enabled {
            return Err(CaptureRefusal::AlreadyRunning);
        }
        self.enabled = true;
        self.interface = Some(name.clone());
        self.stop_flag = false;
        self.packets_captured = 0;
        Ok(name)
    }

    /// Asks the capture loop to end at its next tick.
    pub fn request_stop(&mut self)
        ensures
            final(self).stop_flag,
            final(self).enabled == old(self).enabled,
            final(self).interface == old(self).interface,
            final(self).packets_captured == old(self).packets_captured,
            final(self).error == old(self).error,
    {
        self.stop_flag = true;
    }

    /// What the capture loop does at the start of each tick: it ends, and
    /// capture is marked as off, once a stop was asked for.
    pub fn begin_tick(&mut self) -> (action: CaptureAction)
        ensures
            action == if old(self).stop_flag {
                CaptureAction::Stop
            } else {
                CaptureAction::Continue
            },
            final(self).enabled == (old(self).enabled && !old(self).stop_flag),
            final(self).stop_flag == old(self).stop_flag,
            final(self).interface == old(self).interface,
            final(self).packets_captured == old(self).packets_captured,
            final(self).error == old(self).error,
    {
        if self.stop_flag {
            self.enabled = false;
            CaptureAction::Stop
        } else {
            CaptureAction::Continue
        }
    }

    /// Takes note of what the capture loop tells. A failure is kept as the
    /// last error and ends the loop; only a breakdown of running capture
    /// also marks it as off. A start clears the last error, a frame is
    /// counted, a timeout changes nothing.
    pub fn on_capture_event(&mut self, event: CaptureEvent) -> (action: CaptureAction)
        requires
            event is FrameCaptured ==> old(self).packets_captured < u64::MAX,
        ensures
            action == if failure_text(event) is Some {
                CaptureAction::Stop
            } else {
                CaptureAction::Continue
            },
            text_of(final(self).error) == match event {
                CaptureEvent::Started => None,
                CaptureEvent::FrameCaptured => text_of(old(self).error),
                CaptureEvent::TimedOut => text_of(old(self).error),
                _ => failure_text(event),
            },
            final(self).enabled == (old(self).enabled && !(event is CaptureFailed)),
            final(self).packets_captured == old(self).packets_captured + if event
                is FrameCaptured {
                1int
            } else {
                0int
            },
            final(self).interface == old(self).interface,
            final(self).stop_flag == old(self).stop_flag,
    {
        match event {
            CaptureEvent::ListFailed(why) => {
                self.error = Some(labelled("Failed to list devices: ", &why));
                CaptureAction::Stop
            },
            CaptureEvent::InterfaceMissing(name) => {
                self.error = Some(labelled("Interface not found: ", &name));
                CaptureAction::Stop
            },
            CaptureEvent::OpenFailed(why) => {
                self.error = Some(labelled("Failed to open device: ", &why));
                CaptureAction::Stop
            },
            CaptureEvent::StartFailed(why) => {
                self.error = Some(labelled("Failed to start capture: ", &why));
                CaptureAction::Stop
            },
            CaptureEvent::FilterFailed(why) => {
                self.error = Some(labelled("Failed to set filter: ", &why));
                CaptureAction::Stop
            },
            CaptureEvent::Started => {
                self.error = None;
                CaptureAction::Continue
            },
            CaptureEvent::FrameCaptured => {
                self.packets_captured += 1;
                CaptureAction::Continue
            },
            CaptureEvent::TimedOut => CaptureAction::Continue,
            CaptureEvent::CaptureFailed(why) => {
                self.error = Some(labelled("Capture error: ", &why));
                self.enabled = false;
                CaptureAction::Stop
            },
        }
    }
}

impl CaptureRefusal {
    /// The words in which a refusal is told.
    pub open spec fn text(self) -> Seq<char> {
        match self {
            CaptureRefusal::DriverMissing => "Npcap is not installed. Please install Npcap from https://npcap.com/"@,
            CaptureRefusal::NoInterfaces => "No capture interfaces available"@,
            CaptureRefusal::UnknownInterface => "Interface not found"@,
            CaptureRefusal::AlreadyRunning => "Sniffer is already running"@,
        }
    }

    /// The words in which a refusal is told.
    pub fn message(&self) -> (text: String)
        ensures
            text@ == self.text(),
    {
        match self {
            CaptureRefusal::DriverMissing => String::from_str(
                "Npcap is not installed. Please install Npcap from https://npcap.com/",
            ),
            CaptureRefusal::NoInterfaces => String::from_str("No capture interfaces available"),
            CaptureRefusal::UnknownInterface => String::from_str("Interface not found"),
            CaptureRefusal::AlreadyRunning => String::from_str("Sniffer is already running"),
        }
    }
}

impl Default for SnifferState {
    fn default() -> (state: Self)
        ensures
            !state.enabled,
            state.interface is None,
            state.packets_captured == 0,
            state.error is None,
            !state.stop_flag,
    {
        SnifferState::new()
    }
}

} // verus!
