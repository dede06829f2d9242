use vstd::prelude::*;

verus! {

broadcast use vstd::string::group_string_axioms;

/// A command for the connected devices. A speed is the bit pattern
/// (`f64::to_bits`) of the speed the script asked for; it is handed on
/// untouched.
#[derive(Clone, Copy, Debug, PartialEq, Eq, Structural)]
pub enum BPCommand {
    /// Run every motor of every device at this speed.
    Vibrate(u64),
    /// Run the motor with this index, on every device, at this speed.
    VibrateIndex(u64, u32),
    /// Stop every device.
    Stop,
}

/// Something the device client has to react to.
#[derive(Clone, Copy, Debug, PartialEq, Eq, Structural)]
pub enum ClientEvent {
    /// The server reports a new device.
    DeviceAdded,
    /// The server went away.
    ServerDisconnect,
    /// Any other server report (scanning finished, a device left, ...).
    OtherServerEvent,
    /// A command from the command timer.
    Command(BPCommand),
    /// The command channel dropped a command.
    CommandLost,
    /// The program is shutting down.
    CloseRequested,
}

/// What to send to every connected device. Speeds are bit patterns of `f64`
/// speeds, which are capped at full speed (`1.0`) when sent.
#[derive(Clone, Copy, Debug, PartialEq, Eq, Structural)]
pub enum DeviceOrder {
    /// Run every motor at the (capped) speed.
    AllMotors(u64),
    /// Set every motor to zero.
    AllMotorsOff,
    /// Run the motor with this index at the (capped) speed.
    OneMotor(u32, u64),
}

/// How the device client reacts to an event.
#[derive(Clone, Copy, Debug, PartialEq, Eq, Structural)]
pub enum ClientAction {
    /// Note the event and keep listening.
    KeepListening,
    /// Send this to every connected device, then keep listening.
    DriveAll(DeviceOrder),
    /// Stop listening and disconnect.
    Disconnect,
}

/// The order that carries out a device command.
pub open spec fn order_for(c: BPCommand) -> DeviceOrder {
    match c {
        BPCommand::Vibrate(speed) => DeviceOrder::AllMotors(speed),
        BPCommand::VibrateIndex(speed, index) => DeviceOrder::OneMotor(index, speed),
        BPCommand::Stop => DeviceOrder::AllMotorsOff,
    }
}

/// How the client reacts to an event: device commands drive every device, a
/// lost command stops them all, the server going away or a shutdown ends the
/// session, and other server reports are only noted.
pub open spec fn reaction(e: ClientEvent) -> ClientAction {
    match e {
        ClientEvent::Command(c) => ClientAction::DriveAll(order_for(c)),
        ClientEvent::CommandLost => ClientAction::DriveAll(order_for(BPCommand::Stop)),
        ClientEvent::ServerDisconnect => ClientAction::Disconnect,
        ClientEvent::CloseRequested => ClientAction::Disconnect,
        ClientEvent::DeviceAdded => ClientAction::KeepListening,
        ClientEvent::OtherServerEvent => ClientAction::KeepListening,
    }
}

/// Decides how the device client reacts to `e`.
pub fn on_event(e: ClientEvent) -> (a: ClientAction)
    ensures
        a == reaction(e),
        e matches ClientEvent::Command(BPCommand::Vibrate(s)) ==> a == ClientAction::DriveAll(
            DeviceOrder::AllMotors(s),
        ),
        e matches ClientEvent::Command(BPCommand::VibrateIndex(s, i)) ==> a == ClientAction::DriveAll(
            DeviceOrder::OneMotor(i, s),
        ),
        a == ClientAction::DriveAll(DeviceOrder::AllMotorsOff) <==> (e == ClientEvent::Command(
            BPCommand::Stop,
        ) || e == ClientEvent::CommandLost),
{
    match e {
        ClientEvent::Command(c) => ClientAction::DriveAll(device_order(c)),
        ClientEvent::CommandLost => ClientAction::DriveAll(device_order(BPCommand::Stop)),
        ClientEvent::ServerDisconnect => ClientAction::Disconnect,
        ClientEvent::CloseRequested => ClientAction::Disconnect,
        ClientEvent::DeviceAdded => ClientAction::KeepListening,
        ClientEvent::OtherServerEvent => ClientAction::KeepListening,
    }
}

/// The order that carries out a device command.
fn device_order(c: BPCommand) -> (o: DeviceOrder)
    ensures
        o == order_for(c),
{
    match c {
        BPCommand::Vibrate(speed) => DeviceOrder::AllMotors(speed),
        BPCommand::VibrateIndex(speed, index) => DeviceOrder::OneMotor(index, speed),
        BPCommand::Stop => DeviceOrder::AllMotorsOff,
    }
}

/// A vibrate command runs every motor of every device at the speed it
/// carries, whatever that speed is: small speeds are not dropped, and speeds
/// above full are handed on (to be capped when sent), never turned into a stop.
pub proof fn vibrate_drives_every_motor_at_its_speed(speed: u64)
    ensures
        reaction(ClientEvent::Command(BPCommand::Vibrate(speed))) == ClientAction::DriveAll(
            DeviceOrder::AllMotors(speed),
        ),
{
}

/// A vibrate command for one motor runs that motor, on every device, at the
/// speed it carries.
pub proof fn vibrate_index_drives_that_motor_at_its_speed(speed: u64, index: u32)
    ensures
        reaction(ClientEvent::Command(BPCommand::VibrateIndex(speed, index))) == ClientAction::DriveAll(
            DeviceOrder::OneMotor(index, speed),
        ),
{
}

/// The devices are switched off exactly on a stop command or a lost command;
/// no other event, and no vibrate command at any speed, switches them off.
pub proof fn only_stop_or_lost_command_switches_off(e: ClientEvent)
    ensures
        reaction(e) == ClientAction::DriveAll(DeviceOrder::AllMotorsOff) <==> (e == ClientEvent::Command(
            BPCommand::Stop,
        ) || e == ClientEvent::CommandLost),
{
}

/// How to reach the Intiface server.
#[derive(Clone, Copy, Debug, PartialEq, Eq, Structural)]
pub enum Transport {
    /// A TLS websocket.
    Secure,
    /// A plain websocket.
    Insecure,
}

/// The transport for a server address: TLS exactly for `wss://` addresses.
pub fn transport_for(connect_url: &str) -> (t: Transport)
    ensures
        t == (if "wss://"@.is_prefix_of(connect_url@) {
            Transport::Secure
        } else {
            Transport::Insecure
        }),
{
    let scheme = "wss://";
    proof {
        reveal_strlit("wss://");
    }
    let url = crate::text::chars_of(connect_url);
    let prefix = crate::text::chars_of(scheme);
    if crate::text::has_prefix(&url, &prefix) {
        Transport::Secure
    } else {
        Transport::Insecure
    }
}

} // verus!
